use vstd::prelude::*;

use crate::math::UVec2;
use crate::text::{append_str, push_char};
use crate::tilemap::TileFlip;

verus! {

pub const TILE_SIZE: usize = 20;
pub const HALF_TILE_SIZE: usize = 10;
pub const PIXEL_SIZE: usize = 4;

/// How a pixel of a tile image faces: lit from above, flat, facing down, or
/// transparent.
#[derive(Clone, Copy, Debug, PartialEq, Eq, Structural)]
pub enum TilePixel {
    Up,
    Neutral,
    Down,
    Transparent,
}

impl Default for TilePixel {
    fn default() -> (r: TilePixel)
        ensures
            r == TilePixel::Up,
    {
        TilePixel::Up
    }
}

/// The number a pixel direction is stored as: 0 up, 1 neutral, 2 down, 3 none.
pub open spec fn pixel_number(p: TilePixel) -> nat {
    match p {
        TilePixel::Up => 0,
        TilePixel::Neutral => 1,
        TilePixel::Down => 2,
        TilePixel::Transparent => 3,
    }
}

impl TilePixel {
    pub fn index(&self) -> (r: usize)
        ensures
            r == pixel_number(*self),
    {
        match self {
            TilePixel::Up => 0,
            TilePixel::Neutral => 1,
            TilePixel::Down => 2,
            TilePixel::Transparent => 3,
        }
    }
}

/// The RGBA bytes are one of the four colors tile images are drawn with:
/// transparent, red (up), green (neutral) or blue (down).
pub open spec fn known_color(r: u8, g: u8, b: u8, a: u8) -> bool {
    ||| (r, g, b, a) == (0u8, 0u8, 0u8, 0u8)
    ||| (r, g, b, a) == (255u8, 0u8, 0u8, 255u8)
    ||| (r, g, b, a) == (0u8, 255u8, 0u8, 255u8)
    ||| (r, g, b, a) == (0u8, 0u8, 255u8, 255u8)
}

/// The pixel direction that a known color stands for.
pub open spec fn color_pixel(r: u8, g: u8, b: u8, a: u8) -> TilePixel {
    if (r, g, b, a) == (0u8, 0u8, 0u8, 0u8) {
        TilePixel::Transparent
    } else if (r, g, b, a) == (255u8, 0u8, 0u8, 255u8) {
        TilePixel::Up
    } else if (r, g, b, a) == (0u8, 255u8, 0u8, 255u8) {
        TilePixel::Neutral
    } else {
        TilePixel::Down
    }
}

/// Image bytes that decode: whole RGBA pixels, each of a known color.
pub open spec fn decodable(data: Seq<u8>) -> bool {
    &&& data.len() % 4 == 0
    &&& forall|i: int| 0 <= i < data.len() / 4 ==> #[trigger] known_color(data[4 * i], data[4 * i + 1], data[4 * i + 2], data[4 * i + 3])
}

/// The pixel directions of decodable image bytes.
pub open spec fn decoded(data: Seq<u8>) -> Seq<TilePixel> {
    Seq::new(data.len() / 4, |i: int| color_pixel(data[4 * i], data[4 * i + 1], data[4 * i + 2], data[4 * i + 3]))
}

pub fn decode_color(r: u8, g: u8, b: u8, a: u8) -> (p: TilePixel)
    requires
        known_color(r, g, b, a),
    ensures
        p == color_pixel(r, g, b, a),
{
    if r == 0 && g == 0 && b == 0 && a == 0 {
        TilePixel::Transparent
    } else if r == 255 && g == 0 && b == 0 && a == 255 {
        TilePixel::Up
    } else if r == 0 && g == 255 && b == 0 && a == 255 {
        TilePixel::Neutral
    } else {
        TilePixel::Down
    }
}

/// Whether image bytes decode: whole RGBA pixels, each of a known color.
pub fn is_decodable(data: &Vec<u8>) -> (r: bool)
    ensures
        r == decodable(data@),
{
    let len = data.len();
    if len % 4 != 0 {
        return false;
    }
    let n = len / 4;
    let mut i: usize = 0;
    while i < n
        invariant
            len == data@.len(),
            len % 4 == 0,
            n == len / 4,
            i <= n,
            forall|j: int| 0 <= j < i ==> #[trigger] known_color(data@[4 * j], data@[4 * j + 1], data@[4 * j + 2], data@[4 * j + 3]),
        decreases n - i,
    {
        let base = 4 * i;
        let (r, g, b, a) = (data[base], data[base + 1], data[base + 2], data[base + 3]);
        let known = (r == 0 && g == 0 && b == 0 && a == 0) || (r == 255 && g == 0 && b == 0 && a == 255)
            || (r == 0 && g == 255 && b == 0 && a == 255) || (r == 0 && g == 0 && b == 255 && a == 255);
        if !known {
            assert(!known_color(data@[4 * i], data@[4 * i + 1], data@[4 * i + 2], data@[4 * i + 3]));
            return false;
        }
        i = i + 1;
    }
    true
}

/// One layer of a tile image: a direction for every pixel.
pub struct TileLayer {
    pub colors: Vec<TilePixel>,
}

impl TileLayer {
    /// Decodes RGBA image bytes into pixel directions.
    pub fn from_bytes(value: &Vec<u8>) -> (r: TileLayer)
        requires
            decodable(value@),
        ensures
            r.colors@ == decoded(value@),
    {
        let mut colors: Vec<TilePixel> = Vec::new();
        let len = value.len();
        let n = len / 4;
        let mut i: usize = 0;
        while i < n
            invariant
                len == value@.len(),
                decodable(value@),
                n == value@.len() / 4,
                i <= n,
                colors@ == decoded(value@).take(i as int),
            decreases n - i,
        {
            assert(known_color(value@[4 * i], value@[4 * i + 1], value@[4 * i + 2], value@[4 * i + 3]));
            assert(4 * i + 3 < value@.len());
            let base = 4 * i;
            let p = decode_color(value[base], value[base + 1], value[base + 2], value[base + 3]);
            colors.push(p);
            assert(colors@ =~= decoded(value@).take(i + 1));
            i = i + 1;
        }
        assert(colors@ =~= decoded(value@));
        TileLayer { colors }
    }
}

/// Which of a quadrant's five images to use, from whether the neighbors
/// beside it horizontally, vertically and diagonally are solid.
pub open spec fn sub_tile_row(horizontal: bool, vertical: bool, diagonal: bool) -> nat {
    if horizontal && vertical && diagonal {
        4
    } else if horizontal && vertical {
        3
    } else if horizontal {
        2
    } else if vertical {
        1
    } else {
        0
    }
}

/// The images of one quadrant of a block tile, one per neighborhood case.
struct SubTile {
    quadrant: usize,
    data: Vec<TileLayer>,
}

impl SubTile {
    /// `adj` holds, in order around the quadrant's corner, the solidity of the
    /// first side neighbor, the diagonal neighbor and the second side neighbor.
    fn get(&self, adj: &[bool]) -> (r: &TileLayer)
        requires
            adj@.len() >= 3,
            sub_tile_row(
                adj@[2 * (self.quadrant % 2) as int],
                adj@[2 * (1 - self.quadrant % 2) as int],
                adj@[1],
            ) < self.data@.len(),
        ensures
            *r == self.data@[sub_tile_row(
                adj@[2 * (self.quadrant % 2) as int],
                adj@[2 * (1 - self.quadrant % 2) as int],
                adj@[1],
            ) as int],
    {
        let horizontal = adj[2 * (self.quadrant % 2)];
        let vertical = adj[2 * (1 - (self.quadrant % 2))];
        let diagonal = adj[1];

        let idx: usize = if horizontal && vertical && diagonal {
            4
        } else if horizontal && vertical {
            3
        } else if horizontal {
            2
        } else if vertical {
            1
        } else {
            0
        };
        &self.data[idx]
    }
}

/// The tile layer of every sub-layer: layer `i` repeated `reps[i]` times.
pub open spec fn unrolled(reps: Seq<usize>) -> Seq<usize>
    decreases reps.len(),
{
    if reps.len() == 0 {
        seq![]
    } else {
        unrolled(reps.drop_last()) + Seq::new(reps.last() as nat, |i: int| (reps.len() - 1) as usize)
    }
}

/// The total number of sub-layers.
pub open spec fn repeats_total(reps: Seq<usize>) -> nat
    decreases reps.len(),
{
    if reps.len() == 0 {
        0
    } else {
        repeats_total(reps.drop_last()) + reps.last() as nat
    }
}

proof fn lemma_unrolled_len(reps: Seq<usize>)
    ensures
        unrolled(reps).len() == repeats_total(reps),
        forall|i: int| 0 <= i < unrolled(reps).len() ==> (#[trigger] unrolled(reps)[i]) < reps.len(),
    decreases reps.len(),
{
    if reps.len() > 0 {
        lemma_unrolled_len(reps.drop_last());
        let prev = unrolled(reps.drop_last());
        let tail = Seq::new(reps.last() as nat, |i: int| (reps.len() - 1) as usize);
        assert forall|i: int| 0 <= i < unrolled(reps).len() implies (#[trigger] unrolled(reps)[i]) < reps.len() by {
            if i < prev.len() {
                assert(unrolled(reps)[i] == prev[i]);
            } else {
                assert(unrolled(reps)[i] == tail[i - prev.len()]);
            }
        }
    }
}

proof fn lemma_total_prefix(reps: Seq<usize>, i: int)
    requires
        0 <= i <= reps.len(),
    ensures
        repeats_total(reps.take(i)) <= repeats_total(reps),
    decreases reps.len() - i,
{
    if i < reps.len() {
        lemma_total_prefix(reps, i + 1);
        assert(reps.take(i + 1).drop_last() =~= reps.take(i));
    } else {
        assert(reps.take(i) =~= reps);
    }
}

/// For every sub-layer, the index of the tile layer it is drawn from.
pub fn compute_tile_layers(layer_repeats: &Vec<usize>) -> (r: Vec<usize>)
    requires
        repeats_total(layer_repeats@) <= usize::MAX,
    ensures
        r@ == unrolled(layer_repeats@),
{
    let mut out: Vec<usize> = Vec::new();
    let mut idx: usize = 0;
    while idx < layer_repeats.len()
        invariant
            idx <= layer_repeats@.len(),
            repeats_total(layer_repeats@) <= usize::MAX,
            out@ == unrolled(layer_repeats@.take(idx as int)),
        decreases layer_repeats@.len() - idx,
    {
        let e = layer_repeats[idx];
        let ghost before = out@;
        let mut k: usize = 0;
        while k < e
            invariant
                k <= e,
                out@ == before + Seq::new(k as nat, |i: int| idx),
            decreases e - k,
        {
            out.push(idx);
            assert(out@ =~= before + Seq::new((k + 1) as nat, |i: int| idx));
            k = k + 1;
        }
        assert(layer_repeats@.take(idx + 1).drop_last() =~= layer_repeats@.take(idx as int));
        assert(out@ =~= unrolled(layer_repeats@.take(idx + 1)));
        idx = idx + 1;
    }
    assert(layer_repeats@.take(idx as int) =~= layer_repeats@);
    out
}

/// The tile layer that sub-layer `sub_layer` is drawn from.
pub fn get_tile_layer(sub_layer: usize, layer_repeats: &Vec<usize>) -> (r: usize)
    requires
        repeats_total(layer_repeats@) <= usize::MAX,
        sub_layer < repeats_total(layer_repeats@),
    ensures
        r == unrolled(layer_repeats@)[sub_layer as int],
        r < layer_repeats@.len(),
{
    let unrolled_layers = compute_tile_layers(layer_repeats);
    proof { lemma_unrolled_len(layer_repeats@); }
    unrolled_layers[sub_layer]
}

/// Where pixel `k` (0..100) of neighborhood image `r` of quadrant `q` is
/// taken from in a block material image: the image holds each quadrant as
/// a strip of five 10 x 10 images side by side.
pub open spec fn block_source(q: int, r: int, k: int) -> int {
    q * 500 + r * 10 + k % 10 + (k / 10) * 50
}

/// Where pixel `k` (0..400) of quarter image `r` of strip `row` is taken from
/// in a slope material image: each strip holds four 20 x 20 images side by side.
pub open spec fn slope_source(row: int, r: int, k: int) -> int {
    row * 1600 + r * 20 + k % 20 + (k / 20) * 80
}

fn extract_block_layer(colors: &Vec<TilePixel>, q: usize, r: usize) -> (layer: TileLayer)
    requires
        r < 5,
        (q + 1) * 500 <= colors@.len(),
    ensures
        layer.colors@.len() == 100,
        forall|k: int| 0 <= k < 100 ==> #[trigger] layer.colors@[k] == colors@[block_source(q as int, r as int, k)],
{
    let mut px: Vec<TilePixel> = Vec::new();
    let n = colors.len();
    assert(q * 500 + r * 10 < (q + 1) * 500) by (nonlinear_arith)
        requires r < 5;
    let start = q * 500 + r * HALF_TILE_SIZE;
    let mut vy: usize = 0;
    while vy < HALF_TILE_SIZE
        invariant
            r < 5,
            (q + 1) * 500 <= colors@.len(),
            start == q * 500 + r * 10,
            n == colors@.len(),
            vy <= 10,
            px@.len() == vy * 10,
            forall|k: int| 0 <= k < px@.len() ==> #[trigger] px@[k] == colors@[block_source(q as int, r as int, k)],
        decreases 10 - vy,
    {
        let mut vx: usize = 0;
        while vx < HALF_TILE_SIZE
            invariant
                r < 5,
                (q + 1) * 500 <= colors@.len(),
                start == q * 500 + r * 10,
                n == colors@.len(),
                vy < 10,
                vx <= 10,
                px@.len() == vy * 10 + vx,
                forall|k: int| 0 <= k < px@.len() ==> #[trigger] px@[k] == colors@[block_source(q as int, r as int, k)],
            decreases 10 - vx,
        {
            proof {
                vstd::arithmetic::div_mod::lemma_fundamental_div_mod_converse(
                    px@.len() as int, 10, vy as int, vx as int);
                assert(start + vx + vy * 50 < (q + 1) * 500) by (nonlinear_arith)
                    requires start == q * 500 + r * 10, r < 5, vx < 10, vy < 10;
            }
            let wpos = start + vx + vy * HALF_TILE_SIZE * 5;
            px.push(colors[wpos]);
            vx = vx + 1;
        }
        vy = vy + 1;
    }
    TileLayer { colors: px }
}

fn extract_slope_layer(colors: &Vec<TilePixel>, row: usize, r: usize) -> (layer: TileLayer)
    requires
        r < 4,
        (row + 1) * 1600 <= colors@.len(),
    ensures
        layer.colors@.len() == 400,
        forall|k: int| 0 <= k < 400 ==> #[trigger] layer.colors@[k] == colors@[slope_source(row as int, r as int, k)],
{
    let mut px: Vec<TilePixel> = Vec::new();
    let n = colors.len();
    assert(row * 1600 + r * 20 < (row + 1) * 1600) by (nonlinear_arith)
        requires r < 4;
    let start = row * 1600 + r * TILE_SIZE;
    let mut vy: usize = 0;
    while vy < TILE_SIZE
        invariant
            r < 4,
            (row + 1) * 1600 <= colors@.len(),
            start == row * 1600 + r * 20,
            n == colors@.len(),
            vy <= 20,
            px@.len() == vy * 20,
            forall|k: int| 0 <= k < px@.len() ==> #[trigger] px@[k] == colors@[slope_source(row as int, r as int, k)],
        decreases 20 - vy,
    {
        let mut vx: usize = 0;
        while vx < TILE_SIZE
            invariant
                r < 4,
                (row + 1) * 1600 <= colors@.len(),
                start == row * 1600 + r * 20,
                n == colors@.len(),
                vy < 20,
                vx <= 20,
                px@.len() == vy * 20 + vx,
                forall|k: int| 0 <= k < px@.len() ==> #[trigger] px@[k] == colors@[slope_source(row as int, r as int, k)],
            decreases 20 - vx,
        {
            proof {
                vstd::arithmetic::div_mod::lemma_fundamental_div_mod_converse(
                    px@.len() as int, 20, vy as int, vx as int);
                assert(start + vx + vy * 80 < (row + 1) * 1600) by (nonlinear_arith)
                    requires start == row * 1600 + r * 20, r < 4, vx < 20, vy < 20;
            }
            let wpos = start + vx + vy * TILE_SIZE * 4;
            px.push(colors[wpos]);
            vx = vx + 1;
        }
        vy = vy + 1;
    }
    TileLayer { colors: px }
}

/// The quadrant of a 20 x 20 tile that pixel `(x, y)` lies in: 0 top left,
/// 1 top right, 2 bottom right, 3 bottom left.
pub open spec fn quadrant_of(x: int, y: int) -> int {
    if y <= 9 {
        if x <= 9 { 0 } else { 1 }
    } else {
        if x <= 9 { 3 } else { 2 }
    }
}

/// A block material: four quadrants, each with its five neighborhood images.
pub struct BlockMaterial {
    sub_tiles: Vec<SubTile>,
    computed_tile_layers: Vec<usize>,
}

/// A slope material: per tile layer, per flip, four quarter images.
pub struct SlopeMaterial {
    sub_tiles: Vec<Vec<Vec<TileLayer>>>,
    computed_tile_layers: Vec<usize>,
}

/// A material has a block form and a slope form.
pub struct Material {
    pub block: BlockMaterial,
    pub slope: SlopeMaterial,
}

impl BlockMaterial {
    /// Number of sub-layers the material is drawn with.
    pub closed spec fn sub_layer_count(&self) -> nat {
        self.computed_tile_layers@.len()
    }

    /// Direction of pixel `k` (0..100) of the neighborhood image `row` of quadrant `q`.
    pub closed spec fn quadrant_pixel(&self, q: int, row: int, k: int) -> TilePixel {
        self.sub_tiles@[q].data@[row].colors@[k]
    }

    /// Number of quadrants.
    pub closed spec fn quadrant_count(&self) -> nat {
        self.sub_tiles@.len()
    }

    /// Number of neighborhood images of quadrant `q`.
    pub closed spec fn row_count(&self, q: int) -> nat {
        self.sub_tiles@[q].data@.len()
    }

    /// Number of pixels of neighborhood image `row` of quadrant `q`.
    pub closed spec fn pixel_count(&self, q: int, row: int) -> nat {
        self.sub_tiles@[q].data@[row].colors@.len()
    }

    /// The tile layer of every sub-layer.
    pub closed spec fn tile_layers(&self) -> Seq<usize> {
        self.computed_tile_layers@
    }

    /// The quadrant number that quadrant `q` was built with.
    pub closed spec fn quadrant_tag(&self, q: int) -> int {
        self.sub_tiles@[q].quadrant as int
    }

    /// The four quadrants that drawing reads exist, each with at least five
    /// images of at least 10 x 10 pixels.
    pub closed spec fn well_formed(&self) -> bool {
        &&& self.sub_tiles@.len() >= 4
        &&& forall|q: int| 0 <= q < 4 ==> (#[trigger] self.sub_tiles@[q]).data@.len() >= 5
        &&& forall|q: int, r: int| 0 <= q < 4 && 0 <= r < 5 ==> (#[trigger] self.sub_tiles@[q].data@[r]).colors@.len() >= 100
    }

    /// Whether the material can be drawn with: `well_formed`, tested.
    pub fn check_well_formed(&self) -> (r: bool)
        ensures
            r == self.well_formed(),
    {
        if self.sub_tiles.len() < 4 {
            return false;
        }
        let mut q: usize = 0;
        while q < 4
            invariant
                self.sub_tiles@.len() >= 4,
                q <= 4,
                forall|qq: int| 0 <= qq < q ==> (#[trigger] self.sub_tiles@[qq]).data@.len() >= 5,
                forall|qq: int, r: int| 0 <= qq < q && 0 <= r < 5 ==> (#[trigger] self.sub_tiles@[qq].data@[r]).colors@.len() >= 100,
            decreases 4 - q,
        {
            if self.sub_tiles[q].data.len() < 5 {
                return false;
            }
            let mut r: usize = 0;
            while r < 5
                invariant
                    self.sub_tiles@.len() >= 4,
                    q < 4,
                    self.sub_tiles@[q as int].data@.len() >= 5,
                    r <= 5,
                    forall|rr: int| 0 <= rr < r ==> (#[trigger] self.sub_tiles@[q as int].data@[rr]).colors@.len() >= 100,
                decreases 5 - r,
            {
                if self.sub_tiles[q].data[r].colors.len() < 100 {
                    return false;
                }
                r = r + 1;
            }
            q = q + 1;
        }
        true
    }

    /// The direction of pixel `rpos` of a block tile on sub-layer `sub_layer`,
    /// given the solidity of its eight neighbors (west first, then clockwise
    /// through north-west, ..., south-west, and west again).
    pub open spec fn pixel(&self, sub_layer: int, rpos: int, neighbors: Seq<bool>) -> TilePixel {
        if sub_layer >= self.sub_layer_count() {
            TilePixel::Neutral
        } else {
            let x = rpos % 20;
            let y = rpos / 20;
            let q = quadrant_of(x, y);
            let lx = if x > 9 { x - 10 } else { x };
            let ly = if y > 9 { y - 10 } else { y };
            let tag = self.quadrant_tag(q);
            let row = sub_tile_row(neighbors[2 * q + 2 * (tag % 2)], neighbors[2 * q + 2 * (1 - tag % 2)], neighbors[2 * q + 1]);
            self.quadrant_pixel(q, row as int, lx + ly * 10)
        }
    }

    /// What `get_pixel` reads is there: on a drawn sub-layer, the neighbors
    /// of the pixel's quadrant, and the pixel of the quadrant image they
    /// select.
    pub open spec fn readable(&self, sub_layer: int, rpos: int, neighbors: Seq<bool>) -> bool {
        sub_layer < self.sub_layer_count() ==> {
            let x = rpos % 20;
            let y = rpos / 20;
            let q = quadrant_of(x, y);
            let lx = if x > 9 { x - 10 } else { x };
            let ly = if y > 9 { y - 10 } else { y };
            let tag = self.quadrant_tag(q);
            &&& neighbors.len() >= 2 * q + 3
            &&& q < self.quadrant_count()
            &&& ({
                let row = sub_tile_row(neighbors[2 * q + 2 * (tag % 2)], neighbors[2 * q + 2 * (1 - tag % 2)], neighbors[2 * q + 1]) as int;
                row < self.row_count(q) && lx + ly * 10 < self.pixel_count(q, row)
            })
        }
    }

    /// A well-formed block material can be read at every pixel of a tile,
    /// given all nine neighbors.
    pub proof fn lemma_well_formed_readable(&self, sub_layer: int, rpos: int, neighbors: Seq<bool>)
        requires
            self.well_formed(),
            0 <= rpos < 400,
            neighbors.len() >= 9,
        ensures
            self.readable(sub_layer, rpos, neighbors),
    {
        let q = quadrant_of(rpos % 20, rpos / 20);
        assert(0 <= q < 4);
        assert(self.sub_tiles@[q].data@.len() >= 5);
        let tag = self.quadrant_tag(q);
        let row = sub_tile_row(neighbors[2 * q + 2 * (tag % 2)], neighbors[2 * q + 2 * (1 - tag % 2)], neighbors[2 * q + 1]) as int;
        assert(self.sub_tiles@[q].data@[row].colors@.len() >= 100);
    }

    pub fn get_pixel(&self, sub_layer: usize, rpos: usize, neighbors: &Vec<bool>) -> (r: TilePixel)
        requires
            self.readable(sub_layer as int, rpos as int, neighbors@),
        ensures
            r == self.pixel(sub_layer as int, rpos as int, neighbors@),
    {
        if sub_layer >= self.computed_tile_layers.len() {
            return TilePixel::Neutral;
        }
        let (x, y) = (rpos % TILE_SIZE, rpos / TILE_SIZE);

        let quadrant: usize = if y <= 9 {
            if x <= 9 { 0 } else { 1 }
        } else {
            if x <= 9 { 3 } else { 2 }
        };

        let x = if x > 9 { x - 10 } else { x };
        let y = if y > 9 { y - 10 } else { y };
        let idx = x + y * TILE_SIZE / 2;
        assert(y * 20 / 2 == y * 10);

        let adj = &neighbors.as_slice()[quadrant * 2..quadrant * 2 + 3];
        let layer = self.sub_tiles[quadrant].get(adj);
        layer.colors[idx]
    }
}

/// Which flip variant of a slope image to use: 0 none, 1 x, 2 y, 3 both.
pub open spec fn flip_row(flip: TileFlip) -> int {
    if !flip.x && !flip.y {
        0
    } else if flip.x && !flip.y {
        1
    } else if !flip.x && flip.y {
        2
    } else {
        3
    }
}

/// The two quarter images a slope is assembled from, by whether its
/// horizontal and vertical neighbors are solid.
pub open spec fn slope_quarters(horizontal: bool, vertical: bool, row: int) -> (int, int) {
    if !horizontal && !vertical {
        (0, 2)
    } else if horizontal && vertical {
        (1, 3)
    } else if horizontal {
        if row % 2 == 0 { (1, 2) } else { (0, 3) }
    } else {
        if row % 2 == 0 { (0, 3) } else { (1, 2) }
    }
}

impl SlopeMaterial {
    /// Number of sub-layers the material is drawn with.
    pub closed spec fn sub_layer_count(&self) -> nat {
        self.computed_tile_layers@.len()
    }

    /// The tile layer that sub-layer `s` is drawn from.
    pub closed spec fn layer_of(&self, s: int) -> int {
        self.computed_tile_layers@[s] as int
    }

    /// The tile layer of every sub-layer.
    pub closed spec fn tile_layers(&self) -> Seq<usize> {
        self.computed_tile_layers@
    }

    /// Number of tile layers.
    pub closed spec fn layer_count(&self) -> nat {
        self.sub_tiles@.len()
    }

    /// Number of image strips of tile layer `l`.
    pub closed spec fn strip_count(&self, l: int) -> nat {
        self.sub_tiles@[l]@.len()
    }

    /// Number of quarter images of strip `row` of tile layer `l`.
    pub closed spec fn quarter_count(&self, l: int, row: int) -> nat {
        self.sub_tiles@[l]@[row]@.len()
    }

    /// Number of pixels of quarter image `q` of strip `row` of tile layer `l`.
    pub closed spec fn quarter_len(&self, l: int, row: int, q: int) -> nat {
        self.sub_tiles@[l]@[row]@[q].colors@.len()
    }

    /// Direction of pixel `k` of quarter image `quarter` of flip variant `row`
    /// on tile layer `layer`.
    pub closed spec fn quarter_pixel(&self, layer: int, row: int, quarter: int, k: int) -> TilePixel {
        self.sub_tiles@[layer]@[row]@[quarter].colors@[k]
    }

    /// Tile layer `l` exists and has at least four flip variants of at least
    /// four quarter images of at least 20 x 20 pixels.
    pub closed spec fn layer_ready(&self, l: int) -> bool {
        &&& 0 <= l < self.sub_tiles@.len()
        &&& self.sub_tiles@[l]@.len() >= 4
        &&& forall|row: int| 0 <= row < 4 ==> (#[trigger] self.sub_tiles@[l]@[row])@.len() >= 4
        &&& forall|row: int, q: int| 0 <= row < 4 && 0 <= q < 4 ==> (#[trigger] self.sub_tiles@[l]@[row]@[q]).colors@.len() >= 400
    }

    /// Every tile layer that a sub-layer names can be drawn from.
    pub closed spec fn well_formed(&self) -> bool {
        forall|s: int| 0 <= s < self.computed_tile_layers@.len() ==> self.layer_ready(#[trigger] self.computed_tile_layers@[s] as int)
    }

    fn check_layer_ready(&self, l: usize) -> (r: bool)
        ensures
            r == self.layer_ready(l as int),
    {
        if l >= self.sub_tiles.len() || self.sub_tiles[l].len() < 4 {
            return false;
        }
        let mut row: usize = 0;
        while row < 4
            invariant
                l < self.sub_tiles@.len(),
                self.sub_tiles@[l as int]@.len() >= 4,
                row <= 4,
                forall|rr: int| 0 <= rr < row ==> (#[trigger] self.sub_tiles@[l as int]@[rr])@.len() >= 4,
                forall|rr: int, q: int| 0 <= rr < row && 0 <= q < 4 ==> (#[trigger] self.sub_tiles@[l as int]@[rr]@[q]).colors@.len() >= 400,
            decreases 4 - row,
        {
            if self.sub_tiles[l][row].len() < 4 {
                return false;
            }
            let mut q: usize = 0;
            while q < 4
                invariant
                    l < self.sub_tiles@.len(),
                    row < 4,
                    self.sub_tiles@[l as int]@.len() >= 4,
                    self.sub_tiles@[l as int]@[row as int]@.len() >= 4,
                    q <= 4,
                    forall|qq: int| 0 <= qq < q ==> (#[trigger] self.sub_tiles@[l as int]@[row as int]@[qq]).colors@.len() >= 400,
                decreases 4 - q,
            {
                if self.sub_tiles[l][row][q].colors.len() < 400 {
                    return false;
                }
                q = q + 1;
            }
            row = row + 1;
        }
        true
    }

    /// Whether the material can be drawn with: `well_formed`, tested.
    pub fn check_well_formed(&self) -> (r: bool)
        ensures
            r == self.well_formed(),
    {
        let mut s: usize = 0;
        while s < self.computed_tile_layers.len()
            invariant
                s <= self.computed_tile_layers@.len(),
                forall|k: int| 0 <= k < s ==> self.layer_ready(#[trigger] self.computed_tile_layers@[k] as int),
            decreases self.computed_tile_layers@.len() - s,
        {
            if !self.check_layer_ready(self.computed_tile_layers[s]) {
                return false;
            }
            s = s + 1;
        }
        true
    }

    /// The two quarter pixels a slope pixel is assembled from.
    pub open spec fn quarter_pair(&self, sub_layer: int, rpos: int, flip: TileFlip, neighbors: Seq<bool>) -> (TilePixel, TilePixel) {
        let row = flip_row(flip);
        let (a, b) = slope_quarters(neighbors[0], neighbors[1], row);
        let layer = self.layer_of(sub_layer);
        (self.quarter_pixel(layer, row, a, rpos), self.quarter_pixel(layer, row, b, rpos))
    }

    /// The quarters agree: at most one of them is drawn at each pixel.
    pub open spec fn quarters_disjoint(&self, sub_layer: int, rpos: int, flip: TileFlip, neighbors: Seq<bool>) -> bool {
        sub_layer < self.sub_layer_count() ==> {
            let (p1, p2) = self.quarter_pair(sub_layer, rpos, flip, neighbors);
            p1 == TilePixel::Transparent || p2 == TilePixel::Transparent
        }
    }

    /// The direction of pixel `rpos` of a slope on sub-layer `sub_layer`.
    pub open spec fn pixel(&self, sub_layer: int, rpos: int, flip: TileFlip, neighbors: Seq<bool>) -> TilePixel {
        if sub_layer >= self.sub_layer_count() {
            TilePixel::Neutral
        } else {
            let (p1, p2) = self.quarter_pair(sub_layer, rpos, flip, neighbors);
            if p2 == TilePixel::Transparent { p1 } else { p2 }
        }
    }

    /// Pixel `k` of quarter image `q` of flip variant `row` of tile layer
    /// `layer` exists.
    pub closed spec fn quarter_readable(&self, layer: int, row: int, q: int, k: int) -> bool {
        &&& 0 <= layer < self.sub_tiles@.len()
        &&& 0 <= row < self.sub_tiles@[layer]@.len()
        &&& 0 <= q < self.sub_tiles@[layer]@[row]@.len()
        &&& 0 <= k < self.sub_tiles@[layer]@[row]@[q].colors@.len()
    }

    /// What `get_pixel` and `quarters_agree` read is there: on a drawn
    /// sub-layer, the two neighbors and the pixel of both quarter images
    /// they select in the sub-layer's tile layer.
    pub open spec fn readable(&self, sub_layer: int, rpos: int, flip: TileFlip, neighbors: Seq<bool>) -> bool {
        sub_layer < self.sub_layer_count() ==> {
            let layer = self.layer_of(sub_layer);
            let row = flip_row(flip);
            &&& neighbors.len() >= 2
            &&& self.quarter_readable(layer, row, slope_quarters(neighbors[0], neighbors[1], row).0, rpos)
            &&& self.quarter_readable(layer, row, slope_quarters(neighbors[0], neighbors[1], row).1, rpos)
        }
    }

    /// A well-formed slope material can be read at every pixel of a tile.
    pub proof fn lemma_well_formed_readable(&self, sub_layer: int, rpos: int, flip: TileFlip, neighbors: Seq<bool>)
        requires
            self.well_formed(),
            0 <= sub_layer,
            0 <= rpos < 400,
            neighbors.len() >= 2,
        ensures
            self.readable(sub_layer, rpos, flip, neighbors),
    {
        if sub_layer < self.sub_layer_count() {
            let layer = self.computed_tile_layers@[sub_layer] as int;
            assert(self.layer_ready(layer));
            let row = flip_row(flip);
            let (a, b) = slope_quarters(neighbors[0], neighbors[1], row);
            assert(self.sub_tiles@[layer]@[row]@.len() >= 4);
            assert(self.sub_tiles@[layer]@[row]@[a].colors@.len() >= 400);
            assert(self.sub_tiles@[layer]@[row]@[b].colors@.len() >= 400);
        }
    }

    /// Whether the material can draw pixel `rpos` of a slope: at most one of
    /// its two quarter images covers it.
    pub fn quarters_agree(&self, sub_layer: usize, rpos: usize, flip: TileFlip, neighbors: &Vec<bool>) -> (r: bool)
        requires
            self.readable(sub_layer as int, rpos as int, flip, neighbors@),
        ensures
            r == self.quarters_disjoint(sub_layer as int, rpos as int, flip, neighbors@),
    {
        if sub_layer >= self.computed_tile_layers.len() {
            return true;
        }
        let tile_layer = self.computed_tile_layers[sub_layer];
        let row: usize = if !flip.x && !flip.y {
            0
        } else if flip.x && !flip.y {
            1
        } else if !flip.x && flip.y {
            2
        } else {
            3
        };
        let quadrant: (usize, usize) = if !neighbors[0] && !neighbors[1] {
            (0, 2)
        } else if neighbors[0] && neighbors[1] {
            (1, 3)
        } else if neighbors[0] {
            if row % 2 == 0 { (1, 2) } else { (0, 3) }
        } else {
            if row % 2 == 0 { (0, 3) } else { (1, 2) }
        };
        let p1 = self.sub_tiles[tile_layer][row][quadrant.0].colors[rpos];
        let p2 = self.sub_tiles[tile_layer][row][quadrant.1].colors[rpos];
        p1 == TilePixel::Transparent || p2 == TilePixel::Transparent
    }

    pub fn get_pixel(&self, sub_layer: usize, rpos: usize, flip: TileFlip, neighbors: &Vec<bool>) -> (r: TilePixel)
        requires
            self.readable(sub_layer as int, rpos as int, flip, neighbors@),
            self.quarters_disjoint(sub_layer as int, rpos as int, flip, neighbors@),
        ensures
            r == self.pixel(sub_layer as int, rpos as int, flip, neighbors@),
    {
        if sub_layer >= self.computed_tile_layers.len() {
            return TilePixel::Neutral;
        }
        let tile_layer = self.computed_tile_layers[sub_layer];
        let (x, y) = (rpos % TILE_SIZE, rpos / TILE_SIZE);
        let idx = x + y * TILE_SIZE;
        assert(idx == rpos);

        let row: usize = if !flip.x && !flip.y {
            0
        } else if flip.x && !flip.y {
            1
        } else if !flip.x && flip.y {
            2
        } else {
            3
        };

        let quadrant: (usize, usize) = if !neighbors[0] && !neighbors[1] {
            (0, 2)
        } else if neighbors[0] && neighbors[1] {
            (1, 3)
        } else if neighbors[0] {
            if row % 2 == 0 { (1, 2) } else { (0, 3) }
        } else {
            if row % 2 == 0 { (0, 3) } else { (1, 2) }
        };

        let res1 = self.sub_tiles[tile_layer][row][quadrant.0].colors[idx];
        let res2 = self.sub_tiles[tile_layer][row][quadrant.1].colors[idx];

        // Only one of the quadrants is colored or both are transparent
        match (res1, res2) {
            (p, TilePixel::Transparent) => p,
            (_, p) => p,
        }
    }
}

/// A tile drawn from a stack of layer images.
pub struct Tile {
    pub layers: Vec<TileLayer>,
    computed_tile_layers: Vec<usize>,
    size: UVec2,
}

impl Tile {
    /// Number of sub-layers the tile is drawn with.
    pub closed spec fn sub_layer_count(&self) -> nat {
        self.computed_tile_layers@.len()
    }

    /// The layer image that sub-layer `s` is drawn from.
    pub closed spec fn layer_of(&self, s: int) -> int {
        self.computed_tile_layers@[s] as int
    }

    /// The tile layer of every sub-layer.
    pub closed spec fn tile_layers(&self) -> Seq<usize> {
        self.computed_tile_layers@
    }

    /// The size in tiles the image covers.
    pub closed spec fn tile_size(&self) -> UVec2 {
        self.size
    }

    /// Number of layer images.
    pub closed spec fn layer_count(&self) -> nat {
        self.layers@.len()
    }

    /// Number of pixels of layer image `l`.
    pub closed spec fn layer_len(&self, l: int) -> nat {
        self.layers@[l].colors@.len()
    }

    /// The pixels of layer image `l`.
    pub closed spec fn layer_colors(&self, l: int) -> Seq<TilePixel> {
        self.layers@[l].colors@
    }

    /// Direction of pixel `k` of layer image `l`.
    pub closed spec fn layer_pixel(&self, l: int, k: int) -> TilePixel {
        self.layers@[l].colors@[k]
    }

    /// The direction of pixel `rpos` on sub-layer `sub_layer`.
    pub open spec fn pixel(&self, sub_layer: int, rpos: int) -> TilePixel {
        if sub_layer >= self.sub_layer_count() {
            TilePixel::Neutral
        } else {
            self.layer_pixel(self.layer_of(sub_layer), rpos)
        }
    }

    /// Sub-layer `sub_layer` can be read at `rpos`.
    pub open spec fn readable(&self, sub_layer: int, rpos: int) -> bool {
        sub_layer < self.sub_layer_count() ==> {
            &&& 0 <= self.layer_of(sub_layer) < self.layer_count()
            &&& 0 <= rpos < self.layer_len(self.layer_of(sub_layer))
        }
    }

    pub fn get_pixel(&self, sub_layer: usize, rpos: usize) -> (r: TilePixel)
        requires
            self.readable(sub_layer as int, rpos as int),
        ensures
            r == self.pixel(sub_layer as int, rpos as int),
    {
        if sub_layer < self.computed_tile_layers.len() {
            let tile_layer = self.computed_tile_layers[sub_layer];
            self.layers[tile_layer].colors[rpos]
        } else {
            TilePixel::Neutral
        }
    }
}

/// Description of a tile image: its name, size in tiles, and how many
/// sub-layers each of its layer images is repeated for.
#[derive(Debug, Clone)]
pub struct TileMeta {
    pub name: String,
    pub size: UVec2,
    pub layer_repeats: Vec<usize>,
}

/// Description of a material: its block and slope image names and their
/// layer repeats.
#[derive(Debug, Clone)]
pub struct MaterialMeta {
    pub name: String,
    pub name_slope: String,
    pub layer_repeats: Vec<usize>,
    pub layer_repeats_slope: Vec<usize>,
}

/// An entry of a tile manifest.
#[derive(Debug, Clone)]
pub enum Meta {
    TileMeta(TileMeta),
    MaterialMeta(MaterialMeta),
}

impl Meta {
    pub fn name(&self) -> (r: String)
        ensures
            r@ == (match self {
                Meta::TileMeta(m) => m.name@,
                Meta::MaterialMeta(m) => m.name@,
            }),
    {
        match self {
            Meta::TileMeta(meta) => meta.name.clone(),
            Meta::MaterialMeta(meta) => meta.name.clone(),
        }
    }

    pub fn layer_repeats(&self) -> (r: &Vec<usize>)
        ensures
            r@ == (match self {
                Meta::TileMeta(m) => m.layer_repeats@,
                Meta::MaterialMeta(m) => m.layer_repeats@,
            }),
    {
        match self {
            Meta::TileMeta(meta) => &meta.layer_repeats,
            Meta::MaterialMeta(meta) => &meta.layer_repeats,
        }
    }
}

/// The pixels of layer image `j` of a tile image cut into images of `k` pixels.
pub open spec fn chunk_of(colors: Seq<TilePixel>, k: int, j: int) -> Seq<TilePixel> {
    let end = if (j + 1) * k <= colors.len() { (j + 1) * k } else { colors.len() as int };
    colors.subrange(j * k, end)
}

/// Number of images of `k` pixels (the last one possibly shorter).
pub open spec fn chunk_count(n: int, k: int) -> int {
    n / k + if n % k == 0 { 0int } else { 1int }
}

proof fn lemma_chunk_start(n: int, k: int, j: int)
    requires
        0 <= n,
        0 < k,
        0 <= j < chunk_count(n, k),
    ensures
        j * k < n,
        (j + 1) * k <= n || j == chunk_count(n, k) - 1,
        j * k + k <= n ==> j + 1 < chunk_count(n, k) || (j + 1) * k == n,
{
    vstd::arithmetic::div_mod::lemma_fundamental_div_mod(n, k);
    let q = n / k;
    let r = n % k;
    assert(0 <= r < k);
    assert(k * q == q * k) by (nonlinear_arith);
    assert((j + 1) * k == j * k + k) by (nonlinear_arith);
    if j < q {
        assert((j + 1) * k <= q * k) by (nonlinear_arith)
            requires j + 1 <= q, 0 < k;
    } else {
        assert(j == q);
        assert(r != 0);
        assert(j * k == q * k);
        assert((j + 1) * k == q * k + k) by (nonlinear_arith)
            requires j == q;
    }
}

/// Builds a tile from its image bytes: the image is cut into layer images of
/// `400 * size.x * size.y` pixels.
pub fn build_tile(data: &Vec<u8>, meta: &TileMeta) -> (t: Tile)
    requires
        decodable(data@),
        0 < meta.size.x * meta.size.y <= u32::MAX,
        400 * (meta.size.x * meta.size.y) <= usize::MAX,
        repeats_total(meta.layer_repeats@) <= usize::MAX,
    ensures
        t.tile_layers() == unrolled(meta.layer_repeats@),
        t.tile_size() == meta.size,
        t.layer_count() == chunk_count(decoded(data@).len() as int, 400 * (meta.size.x * meta.size.y)),
        forall|j: int| 0 <= j < t.layer_count() ==> #[trigger] t.layer_colors(j) == chunk_of(
            decoded(data@),
            400 * (meta.size.x * meta.size.y),
            j,
        ),
{
    let colors = TileLayer::from_bytes(data).colors;
    let area: u32 = meta.size.x * meta.size.y;
    let k: usize = TILE_SIZE * TILE_SIZE * (area as usize);
    let n = colors.len();
    proof {
        vstd::arithmetic::div_mod::lemma_fundamental_div_mod(n as int, k as int);
        assert(400 * (n as int / k as int) <= n) by (nonlinear_arith)
            requires n == k * (n as int / k as int) + n as int % k as int, 0 <= n as int % k as int, k >= 400, n as int / k as int >= 0;
    }
    let count: usize = n / k + if n % k == 0 { 0 } else { 1 };
    let mut layers: Vec<TileLayer> = Vec::new();
    let mut j: usize = 0;
    while j < count
        invariant
            n == colors@.len(),
            k > 0,
            k == 400 * (meta.size.x * meta.size.y),
            count == chunk_count(n as int, k as int),
            j <= count,
            j == layers@.len(),
            forall|jj: int| 0 <= jj < j ==> (#[trigger] layers@[jj]).colors@ == chunk_of(colors@, k as int, jj),
        decreases count - j,
    {
        proof { lemma_chunk_start(n as int, k as int, j as int); }
        let start = j * k;
        let end = if n - start >= k { start + k } else { n };
        let mut piece: Vec<TilePixel> = Vec::new();
        let mut i = start;
        while i < end
            invariant
                start <= i <= end <= n,
                n == colors@.len(),
                piece@ == colors@.subrange(start as int, i as int),
            decreases end - i,
        {
            piece.push(colors[i]);
            assert(piece@ =~= colors@.subrange(start as int, i + 1));
            i = i + 1;
        }
        proof {
            assert((j + 1) * k == j * k + k) by (nonlinear_arith);
            assert(piece@ == chunk_of(colors@, k as int, j as int));
        }
        layers.push(TileLayer { colors: piece });
        j = j + 1;
    }
    Tile { layers, computed_tile_layers: compute_tile_layers(&meta.layer_repeats), size: meta.size }
}

/// Builds the block form of a material: the image holds, for each quadrant,
/// a strip of its five neighborhood images.
pub fn build_block_material(data: &Vec<u8>, layer_repeats: &Vec<usize>) -> (m: BlockMaterial)
    requires
        decodable(data@),
        decoded(data@).len() % 500 == 0,
        repeats_total(layer_repeats@) <= usize::MAX,
    ensures
        m.tile_layers() == unrolled(layer_repeats@),
        m.quadrant_count() == decoded(data@).len() / 500,
        forall|q: int| 0 <= q < m.quadrant_count() ==> #[trigger] m.quadrant_tag(q) == q && m.row_count(q) == 5,
        forall|q: int, r: int| 0 <= q < m.quadrant_count() && 0 <= r < 5 ==> #[trigger] m.pixel_count(q, r) == 100,
        forall|q: int, r: int, k: int| 0 <= q < m.quadrant_count() && 0 <= r < 5 && 0 <= k < 100
            ==> #[trigger] m.quadrant_pixel(q, r, k) == decoded(data@)[block_source(q, r, k)],
        m.well_formed() <==> decoded(data@).len() / 500 >= 4,
{
    let colors = TileLayer::from_bytes(data).colors;
    let nq = colors.len() / 500;
    let mut sub_tiles: Vec<SubTile> = Vec::new();
    let mut q: usize = 0;
    while q < nq
        invariant
            nq == colors@.len() / 500,
            colors@.len() % 500 == 0,
            colors@ == decoded(data@),
            q <= nq,
            sub_tiles@.len() == q,
            forall|qq: int| 0 <= qq < q ==> (#[trigger] sub_tiles@[qq]).quadrant == qq && sub_tiles@[qq].data@.len() == 5,
            forall|qq: int, r: int| 0 <= qq < q && 0 <= r < 5 ==> (#[trigger] sub_tiles@[qq].data@[r]).colors@.len() == 100,
            forall|qq: int, r: int, k: int| 0 <= qq < q && 0 <= r < 5 && 0 <= k < 100
                ==> #[trigger] sub_tiles@[qq].data@[r].colors@[k] == colors@[block_source(qq, r, k)],
        decreases nq - q,
    {
        proof {
            assert((q + 1) * 500 <= colors@.len()) by (nonlinear_arith)
                requires q < nq, nq == colors@.len() / 500, colors@.len() % 500 == 0;
        }
        let mut rows: Vec<TileLayer> = Vec::new();
        let mut r: usize = 0;
        while r < 5
            invariant
                (q + 1) * 500 <= colors@.len(),
                r <= 5,
                rows@.len() == r,
                forall|rr: int| 0 <= rr < r ==> (#[trigger] rows@[rr]).colors@.len() == 100,
                forall|rr: int, k: int| 0 <= rr < r && 0 <= k < 100
                    ==> #[trigger] rows@[rr].colors@[k] == colors@[block_source(q as int, rr, k)],
            decreases 5 - r,
        {
            let layer = extract_block_layer(&colors, q, r);
            rows.push(layer);
            r = r + 1;
        }
        sub_tiles.push(SubTile { quadrant: q, data: rows });
        q = q + 1;
    }
    let m = BlockMaterial { sub_tiles, computed_tile_layers: compute_tile_layers(layer_repeats) };
    proof {
        if nq >= 4 {
            assert forall|qq: int| 0 <= qq < 4 implies (#[trigger] m.sub_tiles@[qq]).data@.len() >= 5 by {
                assert(m.sub_tiles@[qq].quadrant == qq);
            }
            assert forall|qq: int, r: int| 0 <= qq < 4 && 0 <= r < 5 implies (#[trigger] m.sub_tiles@[qq].data@[r]).colors@.len() >= 100 by {
                assert(sub_tiles@[qq].data@[r].colors@.len() == 100);
            }
        }
    }
    m
}

/// Builds the slope form of a material: the image is a column of strips of
/// four quarter images each; every four strips make one tile layer.
pub fn build_slope_material(data: &Vec<u8>, layer_repeats: &Vec<usize>) -> (m: SlopeMaterial)
    requires
        decodable(data@),
        decoded(data@).len() % 1600 == 0,
        repeats_total(layer_repeats@) <= usize::MAX,
    ensures
        m.tile_layers() == unrolled(layer_repeats@),
        m.layer_count() == chunk_count((decoded(data@).len() / 1600) as int, 4),
        forall|l: int| 0 <= l < m.layer_count() ==> #[trigger] m.strip_count(l) == (if 4 * l + 4 <= decoded(data@).len() / 1600 {
            4
        } else {
            decoded(data@).len() / 1600 - 4 * l
        }),
        forall|l: int, row: int| 0 <= l < m.layer_count() && 0 <= row < m.strip_count(l) ==> #[trigger] m.quarter_count(l, row) == 4,
        forall|l: int, row: int, q: int| 0 <= l < m.layer_count() && 0 <= row < m.strip_count(l) && 0 <= q < 4
            ==> #[trigger] m.quarter_len(l, row, q) == 400,
        forall|l: int, row: int, q: int, k: int| 0 <= l < m.layer_count() && 0 <= row < m.strip_count(l) && 0 <= q < 4 && 0 <= k < 400
            ==> #[trigger] m.quarter_pixel(l, row, q, k) == decoded(data@)[slope_source(4 * l + row, q, k)],
        m.well_formed() <==> strips_cover_layers((decoded(data@).len() / 1600) as int, layer_repeats@),
{
    let colors = TileLayer::from_bytes(data).colors;
    let nrows = colors.len() / 1600;
    let nlayers: usize = nrows / 4 + if nrows % 4 == 0 { 0 } else { 1 };
    let mut sub_tiles: Vec<Vec<Vec<TileLayer>>> = Vec::new();
    let mut l: usize = 0;
    while l < nlayers
        invariant
            nrows == colors@.len() / 1600,
            colors@.len() % 1600 == 0,
            colors@ == decoded(data@),
            nlayers == chunk_count(nrows as int, 4),
            l <= nlayers,
            sub_tiles@.len() == l,
            forall|ll: int| 0 <= ll < l ==> (#[trigger] sub_tiles@[ll])@.len() == (if 4 * ll + 4 <= nrows { 4 } else { nrows - 4 * ll }),
            forall|ll: int, row: int| 0 <= ll < l && 0 <= row < sub_tiles@[ll]@.len() ==> (#[trigger] sub_tiles@[ll]@[row])@.len() == 4,
            forall|ll: int, row: int, q: int| 0 <= ll < l && 0 <= row < sub_tiles@[ll]@.len() && 0 <= q < 4
                ==> (#[trigger] sub_tiles@[ll]@[row]@[q]).colors@.len() == 400,
            forall|ll: int, row: int, q: int, k: int| 0 <= ll < l && 0 <= row < sub_tiles@[ll]@.len() && 0 <= q < 4 && 0 <= k < 400
                ==> #[trigger] sub_tiles@[ll]@[row]@[q].colors@[k] == colors@[slope_source(4 * ll + row, q, k)],
        decreases nlayers - l,
    {
        proof { lemma_chunk_start(nrows as int, 4, l as int); }
        let rows_here: usize = if nrows - 4 * l >= 4 { 4 } else { nrows - 4 * l };
        let mut strips: Vec<Vec<TileLayer>> = Vec::new();
        let mut j: usize = 0;
        while j < rows_here
            invariant
                nrows == colors@.len() / 1600,
                colors@.len() % 1600 == 0,
                4 * l + rows_here <= nrows,
                j <= rows_here,
                strips@.len() == j,
                forall|row: int| 0 <= row < j ==> (#[trigger] strips@[row])@.len() == 4,
                forall|row: int, q: int| 0 <= row < j && 0 <= q < 4 ==> (#[trigger] strips@[row]@[q]).colors@.len() == 400,
                forall|row: int, q: int, k: int| 0 <= row < j && 0 <= q < 4 && 0 <= k < 400
                    ==> #[trigger] strips@[row]@[q].colors@[k] == colors@[slope_source(4 * l + row, q, k)],
            decreases rows_here - j,
        {
            let g = 4 * l + j;
            proof {
                assert((g + 1) * 1600 <= colors@.len()) by (nonlinear_arith)
                    requires g < nrows, nrows == colors@.len() / 1600, colors@.len() % 1600 == 0;
            }
            let mut quarters: Vec<TileLayer> = Vec::new();
            let mut r: usize = 0;
            while r < 4
                invariant
                    (g + 1) * 1600 <= colors@.len(),
                    r <= 4,
                    quarters@.len() == r,
                    forall|q: int| 0 <= q < r ==> (#[trigger] quarters@[q]).colors@.len() == 400,
                    forall|q: int, k: int| 0 <= q < r && 0 <= k < 400
                        ==> #[trigger] quarters@[q].colors@[k] == colors@[slope_source(g as int, q, k)],
                decreases 4 - r,
            {
                let layer = extract_slope_layer(&colors, g, r);
                quarters.push(layer);
                r = r + 1;
            }
            strips.push(quarters);
            j = j + 1;
        }
        sub_tiles.push(strips);
        l = l + 1;
    }
    let m = SlopeMaterial { sub_tiles, computed_tile_layers: compute_tile_layers(layer_repeats) };
    proof {
        let u = unrolled(layer_repeats@);
        assert(m.computed_tile_layers@ == u);
        if strips_cover_layers(nrows as int, layer_repeats@) {
            assert forall|si: int| 0 <= si < m.computed_tile_layers@.len() implies m.layer_ready(#[trigger] m.computed_tile_layers@[si] as int) by {
                let ll = u[si] as int;
                assert(4 * ll + 4 <= nrows);
                lemma_chunk_start(nrows as int, 4, ll);
                assert(ll < nlayers) by (nonlinear_arith)
                    requires 4 * ll + 4 <= nrows, nlayers == chunk_count(nrows as int, 4), ll >= 0;
                assert(sub_tiles@[ll]@.len() == 4);
            }
        }
        if m.well_formed() {
            assert forall|si: int| 0 <= si < u.len() implies 4 * (#[trigger] u[si]) + 4 <= nrows by {
                assert(m.layer_ready(m.computed_tile_layers@[si] as int));
                let ll = u[si] as int;
                assert(sub_tiles@[ll]@.len() >= 4);
            }
        }
    }
    m
}

/// Every tile layer that a sub-layer is drawn from has its four strips among
/// `strips` strips of a slope image.
pub open spec fn strips_cover_layers(strips: int, reps: Seq<usize>) -> bool {
    forall|s: int| 0 <= s < unrolled(reps).len() ==> 4 * (#[trigger] unrolled(reps)[s]) + 4 <= strips
}

/// Builds a material from its block image bytes, slope image bytes and meta data.
pub fn build_material(block_data: &Vec<u8>, slope_data: &Vec<u8>, meta: &MaterialMeta) -> (m: Material)
    requires
        decodable(block_data@),
        decoded(block_data@).len() % 500 == 0,
        decodable(slope_data@),
        decoded(slope_data@).len() % 1600 == 0,
        repeats_total(meta.layer_repeats@) <= usize::MAX,
        repeats_total(meta.layer_repeats_slope@) <= usize::MAX,
    ensures
        m.block.tile_layers() == unrolled(meta.layer_repeats@),
        m.block.quadrant_count() == decoded(block_data@).len() / 500,
        forall|q: int| 0 <= q < m.block.quadrant_count() ==> #[trigger] m.block.quadrant_tag(q) == q && m.block.row_count(q) == 5,
        forall|q: int, r: int| 0 <= q < m.block.quadrant_count() && 0 <= r < 5 ==> #[trigger] m.block.pixel_count(q, r) == 100,
        forall|q: int, r: int, k: int| 0 <= q < m.block.quadrant_count() && 0 <= r < 5 && 0 <= k < 100
            ==> #[trigger] m.block.quadrant_pixel(q, r, k) == decoded(block_data@)[block_source(q, r, k)],
        m.block.well_formed() <==> decoded(block_data@).len() / 500 >= 4,
        m.slope.tile_layers() == unrolled(meta.layer_repeats_slope@),
        m.slope.layer_count() == chunk_count((decoded(slope_data@).len() / 1600) as int, 4),
        forall|l: int| 0 <= l < m.slope.layer_count() ==> #[trigger] m.slope.strip_count(l) == (if 4 * l + 4 <= decoded(slope_data@).len() / 1600 {
            4
        } else {
            decoded(slope_data@).len() / 1600 - 4 * l
        }),
        forall|l: int, row: int| 0 <= l < m.slope.layer_count() && 0 <= row < m.slope.strip_count(l) ==> #[trigger] m.slope.quarter_count(l, row) == 4,
        forall|l: int, row: int, q: int| 0 <= l < m.slope.layer_count() && 0 <= row < m.slope.strip_count(l) && 0 <= q < 4
            ==> #[trigger] m.slope.quarter_len(l, row, q) == 400,
        forall|l: int, row: int, q: int, k: int| 0 <= l < m.slope.layer_count() && 0 <= row < m.slope.strip_count(l) && 0 <= q < 4 && 0 <= k < 400
            ==> #[trigger] m.slope.quarter_pixel(l, row, q, k) == decoded(slope_data@)[slope_source(4 * l + row, q, k)],
        m.slope.well_formed() <==> strips_cover_layers((decoded(slope_data@).len() / 1600) as int, meta.layer_repeats_slope@),
{
    let block = build_block_material(block_data, &meta.layer_repeats);
    let slope = build_slope_material(slope_data, &meta.layer_repeats_slope);
    Material { block, slope }
}

/// Where the image of tile or material `name` of manifest `manifest` lies
/// among the assets: `tiles/<manifest>/<name>.png`.
pub open spec fn image_path(manifest: Seq<char>, name: Seq<char>) -> Seq<char> {
    seq!['t', 'i', 'l', 'e', 's', '/'] + manifest + seq!['/'] + name + seq!['.', 'p', 'n', 'g']
}

/// The asset path of the image of tile or material `name` of manifest
/// `manifest`.
pub fn tile_image_path(manifest: &str, name: &str) -> (p: String)
    ensures
        p@ == image_path(manifest@, name@),
{
    let mut p = String::new();
    push_char(&mut p, 't');
    push_char(&mut p, 'i');
    push_char(&mut p, 'l');
    push_char(&mut p, 'e');
    push_char(&mut p, 's');
    push_char(&mut p, '/');
    append_str(&mut p, manifest);
    push_char(&mut p, '/');
    append_str(&mut p, name);
    push_char(&mut p, '.');
    push_char(&mut p, 'p');
    push_char(&mut p, 'n');
    push_char(&mut p, 'g');
    assert(p@ =~= image_path(manifest@, name@));
    p
}

} // verus!
