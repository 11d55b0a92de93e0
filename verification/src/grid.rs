use vstd::prelude::*;

use crate::math::IVec2;

verus! {

/// Row-major linear position of `pos` in a grid whose rows are `size.x` wide.
pub open spec fn linear_index(size: IVec2, pos: IVec2) -> int {
    pos.y * size.x + pos.x
}

/// The bounds test the grid applies: only the upper bounds are checked.
pub open spec fn below_size(size: IVec2, pos: IVec2) -> bool {
    pos.x < size.x && pos.y < size.y
}

/// The `i32` arithmetic that turns `pos` into a linear index does not overflow.
pub open spec fn index_fits(size: IVec2, pos: IVec2) -> bool {
    below_size(size, pos) ==> {
        &&& i32::MIN <= pos.y * size.x <= i32::MAX
        &&& i32::MIN <= pos.y * size.x + pos.x <= i32::MAX
    }
}

/// Rust's remainder `x % d` for `x >= 0` and `d != 0`.
pub open spec fn rem_toward_zero(x: int, d: int) -> int {
    if d > 0 { x % d } else { x % (-d) }
}

/// Rust's quotient `x / d` (rounded toward zero) for `x >= 0` and `d != 0`.
pub open spec fn div_toward_zero(x: int, d: int) -> int {
    if d > 0 { x / d } else { -(x / (-d)) }
}

/// The position that the grid reports for storage slot `i` in rows `w` wide.
pub open spec fn slot_pos(i: int, w: int) -> IVec2 {
    IVec2 { x: rem_toward_zero(i, w) as i32, y: div_toward_zero(i, w) as i32 }
}

/// Number of rows or columns that a possibly negative extent covers.
pub open spec fn extent(n: i32) -> nat {
    if n > 0 { n as nat } else { 0 }
}

/// The position `(pos.x + dx, pos.y + dy)` of an area.
pub open spec fn area_point(pos: IVec2, dx: int, dy: int) -> IVec2 {
    IVec2 { x: (pos.x + dx) as i32, y: (pos.y + dy) as i32 }
}

/// Every position of the area is representable, its linear index can be
/// computed, and it reaches memory the grid owns whenever it passes the
/// grid's bounds test (indexing the cells would panic otherwise).
pub open spec fn area_fits<T>(g: Grid<T>, pos: IVec2, size: IVec2) -> bool {
    forall|dx: int, dy: int|
        0 <= dx < size.x && 0 <= dy < size.y ==> {
            &&& i32::MIN <= pos.x + dx <= i32::MAX
            &&& i32::MIN <= pos.y + dy <= i32::MAX
            &&& index_fits(g.dims(), #[trigger] area_point(pos, dx, dy))
            &&& below_size(g.dims(), area_point(pos, dx, dy))
                ==> 0 <= linear_index(g.dims(), area_point(pos, dx, dy)) < g.cells().len()
        }
}

/// Cells of column `dx` of an area, rows `0..dy`, that the grid holds.
pub open spec fn area_column<T>(g: Grid<T>, pos: IVec2, dx: int, dy: int) -> Seq<(IVec2, T)>
    decreases dy,
{
    if dy <= 0 {
        seq![]
    } else {
        let prev = area_column(g, pos, dx, dy - 1);
        let p = area_point(pos, dx, dy - 1);
        match g.cell_at(p) {
            Some(c) => prev.push((p, c)),
            None => prev,
        }
    }
}

/// Cells of the first `dx` full columns of an area.
pub open spec fn area_columns<T>(g: Grid<T>, pos: IVec2, size: IVec2, dx: int) -> Seq<(IVec2, T)>
    decreases dx,
{
    if dx <= 0 {
        seq![]
    } else {
        area_columns(g, pos, size, dx - 1) + area_column(g, pos, dx - 1, extent(size.y) as int)
    }
}

/// All cells of an area that the grid holds, column by column.
pub open spec fn area_cells<T>(g: Grid<T>, pos: IVec2, size: IVec2) -> Seq<(IVec2, T)> {
    area_columns(g, pos, size, extent(size.x) as int)
}

/// A sequence of positioned references shows the same cells as `s`.
pub open spec fn shows<T>(r: Seq<(IVec2, &T)>, s: Seq<(IVec2, T)>) -> bool {
    &&& r.len() == s.len()
    &&& forall|i: int| 0 <= i < r.len() ==> (#[trigger] r[i]).0 == s[i].0 && *r[i].1 == s[i].1
}

/// A rectangular grid of cells stored row by row.
#[derive(Debug, Clone)]
pub struct Grid<T> {
    cells: Vec<T>,
    size: IVec2,
}

impl<T> Grid<T> {
    /// The cells, in storage order.
    pub closed spec fn cells(&self) -> Seq<T> {
        self.cells@
    }

    /// The size the grid was made with.
    pub closed spec fn dims(&self) -> IVec2 {
        self.size
    }

    /// The storage slot that `pos` reaches, if any.
    pub open spec fn slot_of(&self, pos: IVec2) -> Option<int> {
        let i = linear_index(self.dims(), pos);
        if below_size(self.dims(), pos) && 0 <= i < self.cells().len() {
            Some(i)
        } else {
            None
        }
    }

    /// The cell that `pos` reaches, if any.
    pub open spec fn cell_at(&self, pos: IVec2) -> Option<T> {
        match self.slot_of(pos) {
            Some(i) => Some(self.cells()[i]),
            None => None,
        }
    }

    /// `next` is what `set(pos, cell)` leaves of `self`.
    pub open spec fn set_outcome(&self, pos: IVec2, cell: T, next: Grid<T>) -> bool {
        &&& next.dims() == self.dims()
        &&& match self.slot_of(pos) {
            Some(i) => next.cells() == self.cells().update(i, cell),
            None => next.cells() == self.cells(),
        }
    }

    pub fn from_raw(size: IVec2, raw: Vec<T>) -> (g: Self)
        ensures
            g.dims() == size,
            g.cells() == raw@,
    {
        Grid { cells: raw, size }
    }

    pub fn new(size: IVec2, default_cell: T) -> (g: Self)
        where
            T: Clone,
        requires
            0 <= size.x * size.y <= i32::MAX,
        ensures
            g.dims() == size,
            g.cells().len() == size.x * size.y,
            forall|i: int| 0 <= i < g.cells().len() ==> cloned(default_cell, #[trigger] g.cells()[i]),
    {
        let n: i32 = size.x * size.y;
        Grid { cells: vec![default_cell; n as usize], size }
    }

    /// Fills the grid row by row, calling `f` with each position.
    pub fn populate_from(size: IVec2, f: impl Fn(IVec2) -> T) -> (g: Self)
        requires
            forall|p: IVec2| #[trigger] f.requires((p,)),
        ensures
            g.dims() == size,
            g.cells().len() == extent(size.x) * extent(size.y),
            forall|i: int|
                0 <= i < g.cells().len() ==> f.ensures(
                    (IVec2 { x: (i % extent(size.x) as int) as i32, y: (i / extent(size.x) as int) as i32 },),
                    #[trigger] g.cells()[i],
                ),
    {
        let mut cells: Vec<T> = Vec::new();
        let w: i32 = if size.x > 0 { size.x } else { 0 };
        let h: i32 = if size.y > 0 { size.y } else { 0 };
        let mut y: i32 = 0;
        while y < h
            invariant
                0 <= y <= h,
                w == extent(size.x),
                h == extent(size.y),
                cells@.len() == y * w,
                forall|p: IVec2| #[trigger] f.requires((p,)),
                forall|i: int|
                    0 <= i < cells@.len() ==> f.ensures(
                        (IVec2 { x: (i % w as int) as i32, y: (i / w as int) as i32 },),
                        #[trigger] cells@[i],
                    ),
            decreases h - y,
        {
            let mut x: i32 = 0;
            while x < w
                invariant
                    0 <= x <= w,
                    0 <= y < h,
                    w == extent(size.x),
                    h == extent(size.y),
                    cells@.len() == y * w + x,
                    forall|p: IVec2| #[trigger] f.requires((p,)),
                    forall|i: int|
                        0 <= i < cells@.len() ==> f.ensures(
                            (IVec2 { x: (i % w as int) as i32, y: (i / w as int) as i32 },),
                            #[trigger] cells@[i],
                        ),
                decreases w - x,
            {
                let c = f(IVec2 { x, y });
                proof {
                    vstd::arithmetic::div_mod::lemma_fundamental_div_mod_converse(
                        cells@.len() as int, w as int, y as int, x as int);
                }
                cells.push(c);
                x = x + 1;
            }
            proof {
                assert((y + 1) * w == y * w + w) by (nonlinear_arith);
            }
            y = y + 1;
        }
        proof {
            assert(y * w == extent(size.x) * extent(size.y)) by (nonlinear_arith)
                requires y == extent(size.y), w == extent(size.x);
        }
        Grid { cells, size }
    }

    fn slot(&self, pos: IVec2) -> (r: Option<usize>)
        requires
            index_fits(self.dims(), pos),
        ensures
            r matches Some(i) ==> self.slot_of(pos) == Some(i as int),
            r is None ==> self.slot_of(pos) is None,
    {
        if pos.x < self.size.x && pos.y < self.size.y {
            let raw: i32 = pos.y * self.size.x + pos.x;
            if raw >= 0 && (raw as usize) < self.cells.len() {
                Some(raw as usize)
            } else {
                None
            }
        } else {
            None
        }
    }

    pub fn size(&self) -> (r: IVec2)
        ensures
            r == self.dims(),
    {
        self.size
    }

    pub fn get(&self, pos: IVec2) -> (r: Option<&T>)
        requires
            index_fits(self.dims(), pos),
        ensures
            r is Some <==> self.cell_at(pos) is Some,
            r matches Some(v) ==> self.cell_at(pos) == Some(*v),
    {
        match self.slot(pos) {
            Some(i) => Some(&self.cells[i]),
            None => None,
        }
    }


    pub fn get_mut(&mut self, pos: IVec2) -> (r: Option<&mut T>)
        requires
            index_fits(old(self).dims(), pos),
        ensures
            r is Some <==> old(self).cell_at(pos) is Some,
            final(self).dims() == old(self).dims(),
            match old(self).slot_of(pos) {
                Some(i) => {
                    &&& r matches Some(v) && *v == old(self).cells()[i]
                    &&& final(self).cells() == old(self).cells().update(i, *final(r->0))
                },
                None => final(self).cells() == old(self).cells(),
            },
    {
        match self.slot(pos) {
            Some(i) => Some(&mut self.cells[i]),
            None => None,
        }
    }

    pub fn set(&mut self, pos: IVec2, cell: T) -> (r: Option<T>)
        requires
            index_fits(old(self).dims(), pos),
        ensures
            r == old(self).cell_at(pos),
            old(self).set_outcome(pos, cell, *final(self)),
    {
        match self.slot(pos) {
            Some(i) => {
                let mut c = cell;
                std::mem::swap(&mut self.cells[i], &mut c);
                Some(c)
            },
            None => None,
        }
    }

    /// Every cell with the position the grid assigns to its slot.
    pub fn iter(&self) -> (r: Vec<(IVec2, &T)>)
        requires
            self.cells().len() == 0 || self.dims().x != 0,
            self.cells().len() <= i32::MAX + 1,
        ensures
            r@.len() == self.cells().len(),
            forall|i: int|
                0 <= i < r@.len() ==> (#[trigger] r@[i]).0 == slot_pos(i, self.dims().x as int)
                    && *r@[i].1 == self.cells()[i],
    {
        let w = self.size.x;
        let mut out: Vec<(IVec2, &T)> = Vec::new();
        let mut i: usize = 0;
        while i < self.cells.len()
            invariant
                i <= self.cells@.len(),
                w == self.size.x,
                self.cells@.len() == 0 || w != 0,
                self.cells@.len() <= i32::MAX + 1,
                out@.len() == i,
                forall|j: int|
                    0 <= j < i ==> (#[trigger] out@[j]).0 == slot_pos(j, w as int)
                        && *out@[j].1 == self.cells@[j],
            decreases self.cells@.len() - i,
        {
            let ii = i as i32;
            let x = ii.checked_rem(w).unwrap();
            let y = ii.checked_div(w).unwrap();
            proof {
                if w > 0 {
                    vstd::arithmetic::div_mod::lemma_small_mod(0, w as nat);
                } else {
                    vstd::arithmetic::div_mod::lemma_small_mod(0, (-w) as nat);
                }
            }
            assert(x as int == rem_toward_zero(i as int, w as int));
            assert(y as int == div_toward_zero(i as int, w as int));
            out.push((IVec2 { x, y }, &self.cells[i]));
            i = i + 1;
        }
        out
    }

    /// The position the grid assigns to storage slot `i`, as `iter` and a
    /// mutable walk over the cells pair them.
    pub fn slot_position(&self, i: usize) -> (p: IVec2)
        requires
            i < self.cells().len(),
            self.dims().x != 0,
            self.cells().len() <= i32::MAX + 1,
        ensures
            p == slot_pos(i as int, self.dims().x as int),
    {
        let w = self.size.x;
        let ii = i as i32;
        let x = ii.checked_rem(w).unwrap();
        let y = ii.checked_div(w).unwrap();
        proof {
            if w > 0 {
                vstd::arithmetic::div_mod::lemma_small_mod(0, w as nat);
            } else {
                vstd::arithmetic::div_mod::lemma_small_mod(0, (-w) as nat);
            }
        }
        assert(x as int == rem_toward_zero(i as int, w as int));
        assert(y as int == div_toward_zero(i as int, w as int));
        IVec2 { x, y }
    }

    /// The cell in storage slot `i`, to change in place.
    pub fn slot_mut(&mut self, i: usize) -> (r: &mut T)
        requires
            i < old(self).cells().len(),
        ensures
            *r == old(self).cells()[i as int],
            final(self).dims() == old(self).dims(),
            final(self).cells() == old(self).cells().update(i as int, *final(r)),
    {
        &mut self.cells[i]
    }

    /// The cells of the area with corner `pos` and extent `size` that lie in the
    /// grid, column by column, each with its position.
    pub fn iter_area(&self, pos: IVec2, size: IVec2) -> (r: Vec<(IVec2, &T)>)
        requires
            area_fits(*self, pos, size),
        ensures
            shows(r@, area_cells(*self, pos, size)),
    {
        let mut out: Vec<(IVec2, &T)> = Vec::new();
        let mut x: i32 = 0;
        let ghost h = extent(size.y) as int;
        while x < size.x
            invariant
                0 <= x,
                x <= extent(size.x),
                h == extent(size.y),
                area_fits(*self, pos, size),
                shows(out@, area_columns(*self, pos, size, x as int)),
            decreases size.x - x,
        {
            let mut y: i32 = 0;
            while y < size.y
                invariant
                    0 <= x < size.x,
                    0 <= y,
                    y <= h,
                    h == extent(size.y),
                    area_fits(*self, pos, size),
                    shows(out@, area_columns(*self, pos, size, x as int) + area_column(*self, pos, x as int, y as int)),
                decreases size.y - y,
            {
                let ghost q = area_point(pos, x as int, y as int);
                assert(index_fits(self.dims(), q));
                let p = IVec2 { x: pos.x + x, y: pos.y + y };
                assert(p == q);
                let ghost before = area_columns(*self, pos, size, x as int) + area_column(*self, pos, x as int, y as int);
                match self.slot(p) {
                    Some(k) => {
                        out.push((p, &self.cells[k]));
                        assert(before.push((p, self.cells@[k as int])) =~= area_columns(*self, pos, size, x as int) + area_column(*self, pos, x as int, y + 1));
                    },
                    None => {
                        assert(before =~= area_columns(*self, pos, size, x as int) + area_column(*self, pos, x as int, y + 1));
                    },
                }
                y = y + 1;
            }
            assert(area_columns(*self, pos, size, x + 1) == area_columns(*self, pos, size, x as int) + area_column(*self, pos, x as int, h));
            x = x + 1;
        }
        out
    }

    pub fn index(&self, pos: IVec2) -> (r: &T)
        requires
            index_fits(self.dims(), pos),
            self.cell_at(pos) is Some,
        ensures
            self.cell_at(pos) == Some(*r),
    {
        let i = self.slot(pos).unwrap();
        &self.cells[i]
    }

    pub fn index_mut(&mut self, pos: IVec2) -> (r: &mut T)
        requires
            index_fits(old(self).dims(), pos),
            old(self).cell_at(pos) is Some,
        ensures
            final(self).dims() == old(self).dims(),
            old(self).cell_at(pos) == Some(*r),
            final(self).cells() == old(self).cells().update(old(self).slot_of(pos)->0, *final(r)),
    {
        let i = self.slot(pos).unwrap();
        &mut self.cells[i]
    }

    pub fn raw(&self) -> (r: &[T])
        ensures
            r@ == self.cells(),
    {
        self.cells.as_slice()
    }
}

/// Reading a position back after writing it gives what was written, if the
/// position lies in the grid; writing changes no cell that another position
/// reaches through a different slot, and never changes the size.
pub proof fn law_set_then_get<T>(g: Grid<T>, pos: IVec2, cell: T, next: Grid<T>, other: IVec2)
    requires
        g.set_outcome(pos, cell, next),
    ensures
        next.dims() == g.dims(),
        g.cell_at(pos) is Some ==> next.cell_at(pos) == Some(cell),
        g.cell_at(pos) is None ==> next.cell_at(pos) is None,
        g.slot_of(other) != g.slot_of(pos) ==> next.cell_at(other) == g.cell_at(other),
{
}

} // verus!
