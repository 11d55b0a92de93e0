use vstd::prelude::*;

use crate::editor::tiles::{pixel_number, TilePixel};

verus! {

/// A color as red, green, blue and alpha bytes.
#[derive(Clone, Copy, Debug, PartialEq, Eq, Structural)]
pub struct Rgba {
    pub r: u8,
    pub g: u8,
    pub b: u8,
    pub a: u8,
}

/// Opaque white, the color that palette entries start out as.
pub open spec fn white() -> Rgba {
    Rgba { r: 255, g: 255, b: 255, a: 255 }
}

impl Default for Rgba {
    fn default() -> (c: Rgba)
        ensures
            c == white(),
    {
        Rgba { r: 255, g: 255, b: 255, a: 255 }
    }
}

impl Rgba {
    pub fn rgba_u8(r: u8, g: u8, b: u8, a: u8) -> (c: Rgba)
        ensures
            c == (Rgba { r, g, b, a }),
    {
        Rgba { r, g, b, a }
    }
}

/// Colors of a palette that are not tied to a tile direction.
#[derive(Clone, Copy, Debug)]
pub struct PaletteMeta {
    pub skycolor: Rgba,
}

/// Thirty colors for each of the three lit directions (up, neutral, down).
#[derive(Clone, Copy, Debug)]
pub struct PaletteRows {
    pub colors: [[Rgba; 30]; 3],
}

/// A palette: a sky color and colors for sunlit and shaded pixels.
#[derive(Clone, Copy, Debug)]
pub struct Palette {
    pub meta: PaletteMeta,
    pub sun: PaletteRows,
    pub shade: PaletteRows,
}

/// The palette color of a pixel direction on sub-layer `sub_layer` of layer
/// `layer`; transparent pixels get transparent black.
pub open spec fn palette_color(p: Palette, shade: bool, dir: TilePixel, sub_layer: int, layer: int) -> Rgba {
    if pixel_number(dir) == 3 {
        Rgba { r: 0, g: 0, b: 0, a: 0 }
    } else if shade {
        p.shade.colors@[pixel_number(dir) as int]@[10 * layer + sub_layer]
    } else {
        p.sun.colors@[pixel_number(dir) as int]@[10 * layer + sub_layer]
    }
}

impl Palette {
    pub fn get_color(&self, shade: bool, dir: TilePixel, sub_layer: usize, layer: usize) -> (c: Rgba)
        requires
            dir != TilePixel::Transparent ==> 10 * layer + sub_layer < 30,
        ensures
            c == palette_color(*self, shade, dir, sub_layer as int, layer as int),
    {
        let dir = dir.index();
        if dir == 3 {
            return Rgba { r: 0, g: 0, b: 0, a: 0 };
        }
        let col = 10 * layer + sub_layer;
        if shade {
            self.shade.colors[dir][col]
        } else {
            self.sun.colors[dir][col]
        }
    }

    pub fn get_sun_color(&self, dir: TilePixel, sub_layer: usize, layer: usize) -> (c: Rgba)
        requires
            dir != TilePixel::Transparent ==> 10 * layer + sub_layer < 30,
        ensures
            c == palette_color(*self, false, dir, sub_layer as int, layer as int),
    {
        self.get_color(false, dir, sub_layer, layer)
    }

    pub fn get_shade_color(&self, dir: TilePixel, sub_layer: usize, layer: usize) -> (c: Rgba)
        requires
            dir != TilePixel::Transparent ==> 10 * layer + sub_layer < 30,
        ensures
            c == palette_color(*self, true, dir, sub_layer as int, layer as int),
    {
        self.get_color(true, dir, sub_layer, layer)
    }
}

/// The loaded palettes and which of them is in use.
pub struct Palettes {
    active_palette: usize,
    palettes: Vec<Palette>,
}

impl Palettes {
    /// The palette in use is one of the loaded ones, or the first slot when
    /// none is loaded.
    #[verifier::type_invariant]
    closed spec fn active_in_range(&self) -> bool {
        self.active_palette == 0 || self.active_palette < self.palettes@.len()
    }

    /// Index of the palette in use.
    pub closed spec fn active(&self) -> int {
        self.active_palette as int
    }

    /// The index of the palette in use is never negative.
    pub proof fn lemma_active_nonneg(&self)
        ensures
            0 <= self.active(),
    {
    }

    /// The loaded palettes.
    pub closed spec fn all(&self) -> Seq<Palette> {
        self.palettes@
    }

    /// The number of loaded palettes.
    pub fn len(&self) -> (n: usize)
        ensures
            n == self.all().len(),
            self.active() == 0 || self.active() < n,
    {
        proof { use_type_invariant(self); }
        self.palettes.len()
    }

    pub fn get_active(&self) -> (p: &Palette)
        requires
            self.all().len() > 0,
        ensures
            0 <= self.active() < self.all().len(),
            *p == self.all()[self.active()],
    {
        proof { use_type_invariant(self); }
        &self.palettes[self.active_palette]
    }

    pub fn get(&self, idx: usize) -> (p: &Palette)
        requires
            idx < self.all().len(),
        ensures
            *p == self.all()[idx as int],
    {
        &self.palettes[idx]
    }

    /// Switches to the next palette, going round after the last.
    pub fn cycle(&mut self)
        requires
            old(self).all().len() > 0,
        ensures
            final(self).all() == old(self).all(),
            final(self).active() == (old(self).active() + 1) % (old(self).all().len() as int),
    {
        proof { use_type_invariant(&*self); }
        let n = self.palettes.len();
        self.active_palette = (self.active_palette + 1) % n;
    }
}

/// The color of pixel `col` of pixel row `row` of a 32 pixels wide RGBA image.
pub open spec fn image_pixel(data: Seq<u8>, row: int, col: int) -> Rgba {
    let i = row * 128 + col * 4;
    Rgba { r: data[i], g: data[i + 1], b: data[i + 2], a: data[i + 3] }
}

/// Entry `col` of palette image row `row`, or white if the image has no such row.
pub open spec fn row_color(data: Seq<u8>, row: int, col: int) -> Rgba {
    if row < data.len() / 128 {
        image_pixel(data, row, col)
    } else {
        white()
    }
}

/// A palette image is 32 pixels wide; its first row starts with the sky
/// color, rows 2 to 4 hold the sunlit colors for up, neutral and down
/// pixels, and rows 5 to 7 the shaded ones (30 colors each).
pub open spec fn parsed_palette(p: Palette, data: Seq<u8>) -> bool {
    &&& p.meta.skycolor == row_color(data, 0, 0)
    &&& forall|i: int, c: int| 0 <= i < 3 && 0 <= c < 30 ==> #[trigger] p.sun.colors@[i]@[c] == row_color(data, 2 + i, c)
    &&& forall|i: int, c: int| 0 <= i < 3 && 0 <= c < 30 ==> #[trigger] p.shade.colors@[i]@[c] == row_color(data, 5 + i, c)
}

fn read_pixel(data: &Vec<u8>, row: usize, col: usize) -> (c: Rgba)
    requires
        row < data@.len() / 128,
        col < 32,
    ensures
        c == image_pixel(data@, row as int, col as int),
{
    let n = data.len();
    proof {
        assert(row * 128 + col * 4 + 3 < data@.len()) by (nonlinear_arith)
            requires row < data@.len() / 128, col < 32;
    }
    let i = row * 128 + col * 4;
    Rgba { r: data[i], g: data[i + 1], b: data[i + 2], a: data[i + 3] }
}

fn read_row(data: &Vec<u8>, row: usize) -> (colors: [Rgba; 30])
    ensures
        forall|c: int| 0 <= c < 30 ==> #[trigger] colors@[c] == row_color(data@, row as int, c),
{
    let mut colors = [Rgba { r: 255, g: 255, b: 255, a: 255 }; 30];
    if row < data.len() / 128 {
        let mut c: usize = 0;
        while c < 30
            invariant
                row < data@.len() / 128,
                c <= 30,
                forall|k: int| 0 <= k < c ==> #[trigger] colors@[k] == image_pixel(data@, row as int, k),
            decreases 30 - c,
        {
            colors[c] = read_pixel(data, row, c);
            c = c + 1;
        }
    }
    colors
}

/// Reads a palette from the bytes of a palette image.
pub fn parse_palette(data: &Vec<u8>) -> (p: Palette)
    ensures
        parsed_palette(p, data@),
{
    let skycolor = if data.len() / 128 > 0 {
        read_pixel(data, 0, 0)
    } else {
        Rgba { r: 255, g: 255, b: 255, a: 255 }
    };
    let sun = PaletteRows { colors: [read_row(data, 2), read_row(data, 3), read_row(data, 4)] };
    let shade = PaletteRows { colors: [read_row(data, 5), read_row(data, 6), read_row(data, 7)] };
    let p = Palette { meta: PaletteMeta { skycolor }, sun, shade };
    p
}

/// Reads every palette image; the first palette is the active one.
pub fn parse_palette_images(images: &Vec<Vec<u8>>) -> (ps: Palettes)
    ensures
        ps.active() == 0,
        ps.all().len() == images@.len(),
        forall|i: int| 0 <= i < images@.len() ==> parsed_palette(#[trigger] ps.all()[i], images@[i]@),
{
    let mut palettes: Vec<Palette> = Vec::new();
    let mut i: usize = 0;
    while i < images.len()
        invariant
            i <= images@.len(),
            palettes@.len() == i,
            forall|j: int| 0 <= j < i ==> parsed_palette(#[trigger] palettes@[j], images@[j]@),
        decreases images@.len() - i,
    {
        palettes.push(parse_palette(&images[i]));
        i = i + 1;
    }
    Palettes { active_palette: 0, palettes }
}

/// Cycling keeps the active palette in range, and cycling through all `n`
/// palettes comes back to the one in use.
pub proof fn law_cycle_round_trip(active: int, n: nat)
    requires
        0 <= active < n,
    ensures
        0 <= (active + 1) % (n as int) < n,
        cycle_n(active, n as int, n) == active,
{
    lemma_cycle_n(active, n as int, n);
    vstd::arithmetic::div_mod::lemma_mod_add_multiples_vanish(active, n as int);
    vstd::arithmetic::div_mod::lemma_small_mod(active as nat, n);
    vstd::arithmetic::div_mod::lemma_mod_bound(active + 1, n as int);
}

/// The active palette after `k` cycles among `n` palettes.
pub open spec fn cycle_n(active: int, n: int, k: nat) -> int
    decreases k,
{
    if k == 0 {
        active
    } else {
        (cycle_n(active, n, (k - 1) as nat) + 1) % n
    }
}

proof fn lemma_cycle_n(active: int, n: int, k: nat)
    requires
        0 <= active < n,
    ensures
        cycle_n(active, n, k) == (active + k) % n,
    decreases k,
{
    if k > 0 {
        lemma_cycle_n(active, n, (k - 1) as nat);
        vstd::arithmetic::div_mod::lemma_add_mod_noop_right(1, active + k - 1, n);
    } else {
        vstd::arithmetic::div_mod::lemma_small_mod(active as nat, n as nat);
    }
}

} // verus!
