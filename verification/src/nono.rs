use vstd::prelude::*;

use crate::text::{digit_char, digit_to_char, push_char};

verus! {

/// One cell of a nonogram.
#[derive(Debug, Copy, Clone, PartialEq, Eq, Structural)]
pub enum Cell {
    Empty,
    Filled,
}

impl Default for Cell {
    fn default() -> (r: Cell)
        ensures
            r == Cell::Empty,
    {
        Cell::Empty
    }
}

/// The character a cell is drawn with.
pub open spec fn cell_char(c: Cell) -> char {
    match c {
        Cell::Empty => '-',
        Cell::Filled => '*',
    }
}

impl Cell {
    pub fn is_empty(&self) -> (r: bool)
        ensures
            r == (*self == Cell::Empty),
    {
        match self {
            Cell::Empty => true,
            Cell::Filled => false,
        }
    }

    pub fn to_char(&self) -> (c: char)
        ensures
            c == cell_char(*self),
    {
        match self {
            Cell::Empty => '-',
            Cell::Filled => '*',
        }
    }

    /// The text a cell displays as: its character.
    pub fn to_text(&self) -> (s: String)
        ensures
            s@ == seq![cell_char(*self)],
    {
        let mut s = String::new();
        push_char(&mut s, self.to_char());
        s
    }
}

/// Lengths of the pieces that a line splits into at its empty cells
/// (a line with `k` empty cells has `k + 1` pieces, possibly of length 0).
pub open spec fn segments(line: Seq<Cell>) -> Seq<nat>
    decreases line.len(),
{
    if line.len() == 0 {
        seq![0nat]
    } else {
        let prev = segments(line.drop_last());
        if line.last() == Cell::Empty {
            prev.push(0nat)
        } else {
            prev.update(prev.len() - 1, prev.last() + 1)
        }
    }
}

/// Piece lengths taken as `u8` (that is, modulo 256), dropping those that are 0.
pub open spec fn kept_lengths(s: Seq<nat>) -> Seq<u8>
    decreases s.len(),
{
    if s.len() == 0 {
        seq![]
    } else {
        let prev = kept_lengths(s.drop_last());
        let b = (s.last() % 256) as u8;
        if b > 0 {
            prev.push(b)
        } else {
            prev
        }
    }
}

/// The clue that a line of cells satisfies: the lengths of its runs of
/// filled cells, in order.
pub open spec fn line_clues(line: Seq<Cell>) -> Seq<u8> {
    kept_lengths(segments(line))
}

proof fn lemma_segments_nonempty(line: Seq<Cell>)
    ensures
        segments(line).len() >= 1,
    decreases line.len(),
{
    if line.len() > 0 {
        lemma_segments_nonempty(line.drop_last());
    }
}

/// The clues given for rows or columns: line index and run lengths.
pub open spec fn clue_view(clues: Seq<(usize, Vec<u8>)>) -> Seq<(usize, Seq<u8>)> {
    clues.map_values(|c: (usize, Vec<u8>)| (c.0, c.1@))
}

/// The run lengths of the first clue entry for line `key`, if any.
pub open spec fn find_clue(c: Seq<(usize, Seq<u8>)>, key: int) -> Option<Seq<u8>>
    decreases c.len(),
{
    if c.len() == 0 {
        None
    } else if c[0].0 == key {
        Some(c[0].1)
    } else {
        find_clue(c.drop_first(), key)
    }
}

/// The longest list of run lengths among the clues (0 if there are none).
pub open spec fn longest_clue(c: Seq<(usize, Seq<u8>)>) -> nat
    decreases c.len(),
{
    if c.len() == 0 {
        0
    } else {
        let rest = longest_clue(c.drop_last());
        if c.last().1.len() >= rest { c.last().1.len() } else { rest }
    }
}

/// A space and a digit for each run length.
pub open spec fn digits_text(d: Seq<u8>) -> Seq<char>
    decreases d.len(),
{
    if d.len() == 0 {
        seq![]
    } else {
        digits_text(d.drop_last()) + seq![' ', digit_char(d.last())]
    }
}

/// The first `k` cells of row `y`, each followed by a space.
pub open spec fn cells_row_text(cells: Seq<Cell>, width: int, y: int, k: int) -> Seq<char>
    decreases k,
{
    if k <= 0 {
        seq![]
    } else {
        cells_row_text(cells, width, y, k - 1) + seq![cell_char(cells[y * width + k - 1]), ' ']
    }
}

/// The displayed text of row `y`: its cells, then its clue, then a newline.
pub open spec fn row_text(n: Nonogram, y: int) -> Seq<char> {
    cells_row_text(n.cells@, n.size.0 as int, y, n.size.0 as int) + match find_clue(clue_view(n.horizontal_clues@), y) {
        Some(d) => digits_text(d),
        None => seq![],
    } + seq!['\n']
}

/// The displayed text of the first `k` rows.
pub open spec fn rows_text(n: Nonogram, k: int) -> Seq<char>
    decreases k,
{
    if k <= 0 {
        seq![]
    } else {
        rows_text(n, k - 1) + row_text(n, k - 1)
    }
}

/// Line `l` of the column clues, for the first `k` columns.
pub open spec fn clue_line_text(n: Nonogram, l: int, k: int) -> Seq<char>
    decreases k,
{
    if k <= 0 {
        seq![]
    } else {
        clue_line_text(n, l, k - 1) + match find_clue(clue_view(n.vertical_clues@), k - 1) {
            Some(d) => seq![digit_char(d[l]), ' '],
            None => seq![' ', ' '],
        }
    }
}

/// The first `k` lines of the column clues, each ended by a newline.
pub open spec fn clue_lines_text(n: Nonogram, k: int) -> Seq<char>
    decreases k,
{
    if k <= 0 {
        seq![]
    } else {
        clue_lines_text(n, k - 1) + clue_line_text(n, k - 1, n.size.0 as int) + seq!['\n']
    }
}

/// The whole displayed text of a nonogram.
pub open spec fn nonogram_text(n: Nonogram) -> Seq<char> {
    rows_text(n, n.size.1 as int) + clue_lines_text(n, longest_clue(clue_view(n.vertical_clues@)) as int)
}

fn find_clue_exec(clues: &Vec<(usize, Vec<u8>)>, key: usize) -> (r: Option<&Vec<u8>>)
    ensures
        r is Some <==> find_clue(clue_view(clues@), key as int) is Some,
        r matches Some(d) ==> find_clue(clue_view(clues@), key as int) == Some(d@),
{
    let ghost all = clue_view(clues@);
    assert(all.skip(0) =~= all);
    let mut i: usize = 0;
    while i < clues.len()
        invariant
            i <= clues@.len(),
            all == clue_view(clues@),
            find_clue(all, key as int) == find_clue(all.skip(i as int), key as int),
        decreases clues@.len() - i,
    {
        assert(all.skip(i as int).drop_first() =~= all.skip(i + 1));
        if clues[i].0 == key {
            return Some(&clues[i].1);
        }
        i = i + 1;
    }
    None
}

fn longest_clue_exec(clues: &Vec<(usize, Vec<u8>)>) -> (r: usize)
    ensures
        r == longest_clue(clue_view(clues@)),
{
    let ghost all = clue_view(clues@);
    let mut best: usize = 0;
    let mut i: usize = 0;
    while i < clues.len()
        invariant
            i <= clues@.len(),
            all == clue_view(clues@),
            best == longest_clue(all.take(i as int)),
        decreases clues@.len() - i,
    {
        assert(all.take(i + 1).drop_last() =~= all.take(i as int));
        if clues[i].1.len() >= best {
            best = clues[i].1.len();
        }
        i = i + 1;
    }
    assert(all.take(i as int) =~= all);
    best
}

/// A nonogram puzzle: a grid of cells with clues on some rows and columns.
#[derive(Debug)]
pub struct Nonogram {
    pub cells: Vec<Cell>,
    pub size: (u32, u32),
    pub horizontal_clues: Vec<(usize, Vec<u8>)>,
    pub vertical_clues: Vec<(usize, Vec<u8>)>,
}

/// Row-major index of `pos` in a nonogram `width` cells wide.
pub open spec fn pos_index(width: u32, pos: (u32, u32)) -> int {
    pos.1 * width + pos.0
}

/// Row `r` of a nonogram's cells.
pub open spec fn row_of(cells: Seq<Cell>, width: int, r: int) -> Seq<Cell> {
    cells.subrange(r * width, r * width + width)
}

/// Column `c` of a nonogram's cells, top to bottom.
pub open spec fn column_of(cells: Seq<Cell>, width: int, height: int, c: int) -> Seq<Cell> {
    Seq::new(height as nat, |y: int| cells[y * width + c])
}

/// The column-major copy of a row-major grid of `width` x `height` cells.
pub open spec fn transposed(cells: Seq<Cell>, width: int, height: int) -> Seq<Cell> {
    Seq::new((width * height) as nat, |k: int| cells[(k % height) * width + k / height])
}

fn clone_clues(clues: &Vec<(usize, Vec<u8>)>) -> (r: Vec<(usize, Vec<u8>)>)
    ensures
        clue_view(r@) == clue_view(clues@),
{
    let mut out: Vec<(usize, Vec<u8>)> = Vec::new();
    let mut i: usize = 0;
    while i < clues.len()
        invariant
            i <= clues@.len(),
            out@.len() == i,
            forall|j: int| 0 <= j < i ==> (#[trigger] out@[j]).0 == clues@[j].0 && out@[j].1@ == clues@[j].1@,
        decreases clues@.len() - i,
    {
        let (line, runs) = &clues[i];
        let copy: Vec<u8> = runs.clone();
        out.push((*line, copy));
        i = i + 1;
    }
    assert(clue_view(out@) =~= clue_view(clues@));
    out
}

fn same_bytes(a: &Vec<u8>, b: &Vec<u8>) -> (r: bool)
    ensures
        r == (a@ == b@),
{
    if a.len() != b.len() {
        return false;
    }
    let mut i: usize = 0;
    while i < a.len()
        invariant
            a@.len() == b@.len(),
            i <= a@.len(),
            forall|j: int| 0 <= j < i ==> a@[j] == b@[j],
        decreases a@.len() - i,
    {
        if a[i] != b[i] {
            return false;
        }
        i = i + 1;
    }
    assert(a@ =~= b@);
    true
}

/// A column of the grid is the matching stretch of its transposed copy.
proof fn lemma_column_of_transposed(cells: Seq<Cell>, w: int, h: int, c: int)
    requires
        0 <= c < w,
        0 <= h,
        w * h <= cells.len(),
    ensures
        c * h + h <= w * h,
        transposed(cells, w, h).subrange(c * h, c * h + h) == column_of(cells, w, h, c),
{
    assert(c * h + h <= w * h) by (nonlinear_arith)
        requires c < w, 0 <= h;
    assert forall|y: int| 0 <= y < h implies transposed(cells, w, h).subrange(c * h, c * h + h)[y]
        == column_of(cells, w, h, c)[y] by {
        vstd::arithmetic::div_mod::lemma_fundamental_div_mod_converse(c * h + y, h, c, y);
    }
    assert(transposed(cells, w, h).subrange(c * h, c * h + h) =~= column_of(cells, w, h, c));
}

impl Clone for Nonogram {
    fn clone(&self) -> (r: Self)
        ensures
            r.cells@ == self.cells@,
            r.size == self.size,
            clue_view(r.horizontal_clues@) == clue_view(self.horizontal_clues@),
            clue_view(r.vertical_clues@) == clue_view(self.vertical_clues@),
    {
        Nonogram {
            cells: self.cells.clone(),
            size: self.size,
            horizontal_clues: clone_clues(&self.horizontal_clues),
            vertical_clues: clone_clues(&self.vertical_clues),
        }
    }
}

impl Nonogram {
    /// Width times height.
    pub open spec fn area(&self) -> int {
        self.size.0 * self.size.1
    }

    /// The nonogram's shape is consistent: its area is representable and it
    /// has at least one cell per position.
    pub open spec fn well_sized(&self) -> bool {
        &&& self.area() <= u32::MAX
        &&& self.cells@.len() >= self.area()
    }

    /// Every clue names a row or column that exists.
    pub open spec fn clues_in_range(&self) -> bool {
        &&& forall|i: int| 0 <= i < self.horizontal_clues@.len()
            ==> (#[trigger] self.horizontal_clues@[i]).0 < self.size.1
        &&& forall|i: int| 0 <= i < self.vertical_clues@.len()
            ==> (#[trigger] self.vertical_clues@[i]).0 < self.size.0
    }

    /// Every row and column clue is met by the cells.
    pub open spec fn solved(&self) -> bool {
        let w = self.size.0 as int;
        let h = self.size.1 as int;
        &&& forall|i: int| 0 <= i < self.horizontal_clues@.len()
            ==> line_clues(row_of(self.cells@, w, (#[trigger] self.horizontal_clues@[i]).0 as int))
                == self.horizontal_clues@[i].1@
        &&& forall|i: int| 0 <= i < self.vertical_clues@.len()
            ==> line_clues(column_of(self.cells@, w, h, (#[trigger] self.vertical_clues@[i]).0 as int))
                == self.vertical_clues@[i].1@
    }

    pub fn new(size: (u32, u32), horizontal_clues: Vec<(usize, Vec<u8>)>, vertical_clues: Vec<(usize, Vec<u8>)>) -> (n: Self)
        requires
            size.0 * size.1 <= u32::MAX,
        ensures
            n.size == size,
            n.cells@ == Seq::new((size.0 * size.1) as nat, |i: int| Cell::Empty),
            n.horizontal_clues == horizontal_clues,
            n.vertical_clues == vertical_clues,
    {
        let (width, height) = size;
        let n: u32 = width * height;
        let cells = vec![Cell::Empty; n as usize];
        assert(cells@ =~= Seq::new((size.0 * size.1) as nat, |i: int| Cell::Empty));
        Nonogram { cells, size, horizontal_clues, vertical_clues }
    }

    fn pos_idx(&self, pos: (u32, u32)) -> (r: usize)
        requires
            pos.1 * self.size.0 + pos.0 <= u32::MAX,
        ensures
            r == pos_index(self.size.0, pos),
    {
        let width = self.size.0;
        let i: u32 = pos.1 * width + pos.0;
        i as usize
    }

    pub fn get(&self, pos: (u32, u32)) -> (r: &Cell)
        requires
            pos.1 * self.size.0 + pos.0 <= u32::MAX,
            pos_index(self.size.0, pos) < self.cells@.len(),
        ensures
            *r == self.cells@[pos_index(self.size.0, pos)],
    {
        let i = self.pos_idx(pos);
        &self.cells[i]
    }

    pub fn set(&mut self, pos: (u32, u32), cell: Cell)
        requires
            pos.1 * old(self).size.0 + pos.0 <= u32::MAX,
        ensures
            final(self).size == old(self).size,
            final(self).horizontal_clues == old(self).horizontal_clues,
            final(self).vertical_clues == old(self).vertical_clues,
            pos_index(old(self).size.0, pos) < old(self).cells@.len() ==> final(self).cells@ == old(
                self,
            ).cells@.update(pos_index(old(self).size.0, pos), cell),
            pos_index(old(self).size.0, pos) >= old(self).cells@.len() ==> final(self).cells@ == old(
                self,
            ).cells@,
    {
        let idx = self.pos_idx(pos);
        if idx < self.cells.len() {
            self.cells.set(idx, cell);
        }
    }

    /// Whether a line of cells has exactly the given runs of filled cells.
    pub fn verify_line(line: &[Cell], clues: &Vec<u8>) -> (r: bool)
        ensures
            r == (line_clues(line@) == clues@),
    {
        let mut out: Vec<u8> = Vec::new();
        let mut run: usize = 0;
        let ghost mut done: Seq<nat> = seq![];
        let mut i: usize = 0;
        while i < line.len()
            invariant
                i <= line@.len(),
                run <= i,
                segments(line@.take(i as int)) == done.push(run as nat),
                out@ == kept_lengths(done),
            decreases line@.len() - i,
        {
            let ghost prefix = line@.take(i as int);
            assert(line@.take(i + 1).drop_last() =~= prefix);
            if line[i].is_empty() {
                let b: u8 = (run % 256) as u8;
                if b > 0 {
                    out.push(b);
                }
                proof {
                    assert(kept_lengths(done.push(run as nat)).len() >= 0);
                    assert(done.push(run as nat).drop_last() =~= done);
                    done = done.push(run as nat);
                }
                run = 0;
            } else {
                proof {
                    let segs = done.push(run as nat);
                    assert(segs.update(segs.len() - 1, segs.last() + 1) =~= done.push((run + 1) as nat));
                }
                run = run + 1;
            }
            i = i + 1;
        }
        let b: u8 = (run % 256) as u8;
        if b > 0 {
            out.push(b);
        }
        proof {
            assert(line@.take(i as int) =~= line@);
            assert(done.push(run as nat).drop_last() =~= done);
        }
        same_bytes(&out, clues)
    }

    /// Writes the column-major copy of the cells into `output`.
    fn transpose(&self, output: &mut Vec<Cell>)
        requires
            self.well_sized(),
            old(output)@.len() == self.area(),
        ensures
            final(output)@ == transposed(self.cells@, self.size.0 as int, self.size.1 as int),
    {
        let (width, height) = self.size;
        let ghost target = transposed(self.cells@, width as int, height as int);
        let mut x: u32 = 0;
        while x < width
            invariant
                self.well_sized(),
                (width, height) == self.size,
                x <= width,
                output@.len() == self.area(),
                target == transposed(self.cells@, width as int, height as int),
                forall|k: int| 0 <= k < x * height ==> output@[k] == #[trigger] target[k],
            decreases width - x,
        {
            let mut y: u32 = 0;
            while y < height
                invariant
                    self.well_sized(),
                    (width, height) == self.size,
                    x < width,
                    y <= height,
                    output@.len() == self.area(),
                    target == transposed(self.cells@, width as int, height as int),
                    forall|k: int| 0 <= k < x * height + y ==> output@[k] == #[trigger] target[k],
                decreases height - y,
            {
                proof {
                    assert(x * height + y < width * height) by (nonlinear_arith)
                        requires x < width, y < height;
                    assert(y * width + x < width * height) by (nonlinear_arith)
                        requires x < width, y < height;
                    vstd::arithmetic::div_mod::lemma_fundamental_div_mod_converse(
                        (x * height + y) as int, height as int, x as int, y as int);
                }
                let idx: u32 = x * height + y;
                let src = self.pos_idx((x, y));
                let c = self.cells[src];
                output.set(idx as usize, c);
                y = y + 1;
            }
            proof {
                assert(x * height + height == (x + 1) * height) by (nonlinear_arith);
            }
            x = x + 1;
        }
    }

    /// Whether every row and column clue is met by the cells.
    pub fn is_valid(&self) -> (r: bool)
        requires
            self.well_sized(),
            self.clues_in_range(),
        ensures
            r == self.solved(),
    {
        let (width, height) = self.size;
        let (width, height) = (width as usize, height as usize);
        let mut transpose = vec![Cell::Empty; width * height];
        self.transpose(&mut transpose);
        let ghost w = width as int;
        let ghost h = height as int;

        let mut rows_ok = true;
        let mut i: usize = 0;
        while i < self.horizontal_clues.len()
            invariant
                self.well_sized(),
                self.clues_in_range(),
                w == self.size.0,
                h == self.size.1,
                width == w,
                height == h,
                i <= self.horizontal_clues@.len(),
                rows_ok == (forall|j: int| 0 <= j < i ==>
                    line_clues(row_of(self.cells@, w, (#[trigger] self.horizontal_clues@[j]).0 as int))
                        == self.horizontal_clues@[j].1@),
            decreases self.horizontal_clues@.len() - i,
        {
            let (row, clues) = &self.horizontal_clues[i];
            proof {
                assert(*row < h);
                assert(*row * w + w <= w * h) by (nonlinear_arith)
                    requires *row < h, 0 <= w;
            }
            let offset = row * width;
            let line = &self.cells.as_slice()[offset..offset + width];
            let ok = Self::verify_line(line, clues);
            rows_ok = rows_ok && ok;
            i = i + 1;
        }
        let mut cols_ok = true;
        let mut i: usize = 0;
        while i < self.vertical_clues.len()
            invariant
                self.well_sized(),
                self.clues_in_range(),
                w == self.size.0,
                h == self.size.1,
                width == w,
                height == h,
                transpose@ == transposed(self.cells@, w, h),
                i <= self.vertical_clues@.len(),
                cols_ok == (forall|j: int| 0 <= j < i ==>
                    line_clues(column_of(self.cells@, w, h, (#[trigger] self.vertical_clues@[j]).0 as int))
                        == self.vertical_clues@[j].1@),
            decreases self.vertical_clues@.len() - i,
        {
            let (col, clues) = &self.vertical_clues[i];
            proof {
                assert(*col < w);
                assert(*col * h + h <= w * h) by (nonlinear_arith)
                    requires *col < w, 0 <= h;
                lemma_column_of_transposed(self.cells@, w, h, *col as int);
            }
            let offset = col * height;
            let line = &transpose.as_slice()[offset..offset + height];
            let ok = Self::verify_line(line, clues);
            cols_ok = cols_ok && ok;
            i = i + 1;
        }
        rows_ok && cols_ok
    }

    /// Every clue that the displayed text shows is a single digit, and every
    /// column clue is as long as the longest one.
    pub open spec fn displayable(&self) -> bool {
        let hv = clue_view(self.horizontal_clues@);
        let vv = clue_view(self.vertical_clues@);
        &&& forall|y: int| 0 <= y < self.size.1 ==> ((#[trigger] find_clue(hv, y)) matches Some(d) ==> forall|i: int|
            0 <= i < d.len() ==> d[i] < 10)
        &&& forall|x: int| 0 <= x < self.size.0 ==> ((#[trigger] find_clue(vv, x)) matches Some(d) ==> {
            &&& d.len() >= longest_clue(vv)
            &&& forall|l: int| 0 <= l < d.len() ==> d[l] < 10
        })
    }

    /// The text the nonogram displays as: each row's cells followed by its
    /// clue, then the column clues line by line.
    pub fn to_text(&self) -> (s: String)
        requires
            self.well_sized(),
            self.displayable(),
        ensures
            s@ == nonogram_text(*self),
    {
        let mut s = String::new();
        let (width, height) = self.size;
        let ghost hv = clue_view(self.horizontal_clues@);
        let ghost vv = clue_view(self.vertical_clues@);
        let mut y: u32 = 0;
        while y < height
            invariant
                self.well_sized(),
                self.displayable(),
                (width, height) == self.size,
                hv == clue_view(self.horizontal_clues@),
                y <= height,
                s@ == rows_text(*self, y as int),
            decreases height - y,
        {
            let ghost before = s@;
            let mut x: u32 = 0;
            while x < width
                invariant
                    self.well_sized(),
                    self.displayable(),
                    hv == clue_view(self.horizontal_clues@),
                    (width, height) == self.size,
                    y < height,
                    x <= width,
                    s@ == before + cells_row_text(self.cells@, width as int, y as int, x as int),
                decreases width - x,
            {
                proof {
                    assert(y * width + x < width * height) by (nonlinear_arith)
                        requires x < width, y < height;
                }
                let c = self.get((x, y));
                push_char(&mut s, c.to_char());
                push_char(&mut s, ' ');
                proof {
                    assert(s@ =~= before + cells_row_text(self.cells@, width as int, y as int, x + 1));
                }
                x = x + 1;
            }
            let found = find_clue_exec(&self.horizontal_clues, y as usize);
            let ghost mid = s@;
            match found {
                Some(clue) => {
                    assert(find_clue(hv, y as int) == Some(clue@));
                    assert(0 <= y < self.size.1);
                    assert(self.displayable());
                    assert(find_clue(clue_view(self.horizontal_clues@), y as int) matches Some(d) ==> forall|i: int|
                        0 <= i < d.len() ==> d[i] < 10);
                    assert(forall|j: int| 0 <= j < clue@.len() ==> clue@[j] < 10);
                    let mut i: usize = 0;
                    while i < clue.len()
                        invariant
                            i <= clue@.len(),
                            forall|j: int| 0 <= j < clue@.len() ==> clue@[j] < 10,
                            s@ == mid + digits_text(clue@.take(i as int)),
                        decreases clue@.len() - i,
                    {
                        assert(clue@.take(i + 1).drop_last() =~= clue@.take(i as int));
                        push_char(&mut s, ' ');
                        let d = digit_to_char(clue[i]);
                        push_char(&mut s, d);
                        proof {
                            assert(s@ =~= mid + digits_text(clue@.take(i + 1)));
                        }
                        i = i + 1;
                    }
                    assert(clue@.take(i as int) =~= clue@);
                },
                None => {},
            }
            push_char(&mut s, '\n');
            proof {
                assert(s@ =~= rows_text(*self, y + 1));
            }
            y = y + 1;
        }
        let largest = longest_clue_exec(&self.vertical_clues);
        let ghost top = s@;
        let mut l: usize = 0;
        while l < largest
            invariant
                self.displayable(),
                (width, height) == self.size,
                vv == clue_view(self.vertical_clues@),
                largest == longest_clue(vv),
                l <= largest,
                s@ == top + clue_lines_text(*self, l as int),
            decreases largest - l,
        {
            let ghost before = s@;
            let mut x: u32 = 0;
            while x < width
                invariant
                    self.displayable(),
                    (width, height) == self.size,
                    vv == clue_view(self.vertical_clues@),
                    largest == longest_clue(vv),
                    l < largest,
                    x <= width,
                    s@ == before + clue_line_text(*self, l as int, x as int),
                decreases width - x,
            {
                let found = find_clue_exec(&self.vertical_clues, x as usize);
                match found {
                    Some(clue) => {
                        assert(find_clue(vv, x as int) is Some);
                        let d = digit_to_char(clue[l]);
                        push_char(&mut s, d);
                        push_char(&mut s, ' ');
                    },
                    None => {
                        push_char(&mut s, ' ');
                        push_char(&mut s, ' ');
                    },
                }
                proof {
                    assert(s@ =~= before + clue_line_text(*self, l as int, x + 1));
                }
                x = x + 1;
            }
            push_char(&mut s, '\n');
            proof {
                assert(s@ =~= top + clue_lines_text(*self, l + 1));
            }
            l = l + 1;
        }
        s
    }

    pub fn is_empty(&self) -> (r: bool)
        ensures
            r == (forall|i: int| 0 <= i < self.cells@.len() ==> self.cells@[i] == Cell::Empty),
    {
        let mut i: usize = 0;
        while i < self.cells.len()
            invariant
                i <= self.cells@.len(),
                forall|j: int| 0 <= j < i ==> self.cells@[j] == Cell::Empty,
            decreases self.cells@.len() - i,
        {
            if !self.cells[i].is_empty() {
                return false;
            }
            i = i + 1;
        }
        true
    }
}

proof fn lemma_segments_all_empty(line: Seq<Cell>)
    requires
        forall|i: int| 0 <= i < line.len() ==> line[i] == Cell::Empty,
    ensures
        segments(line) == Seq::new(line.len() + 1, |i: int| 0nat),
    decreases line.len(),
{
    if line.len() > 0 {
        lemma_segments_all_empty(line.drop_last());
        assert(segments(line) =~= Seq::new(line.len() + 1, |i: int| 0nat));
    }
}

proof fn lemma_kept_zeros(n: nat)
    ensures
        kept_lengths(Seq::new(n, |i: int| 0nat)) == Seq::<u8>::empty(),
    decreases n,
{
    if n > 0 {
        assert(Seq::new(n, |i: int| 0nat).drop_last() =~= Seq::new((n - 1) as nat, |i: int| 0nat));
        lemma_kept_zeros((n - 1) as nat);
    }
}

proof fn lemma_segments_all_filled(line: Seq<Cell>)
    requires
        forall|i: int| 0 <= i < line.len() ==> line[i] == Cell::Filled,
    ensures
        segments(line) == seq![line.len()],
    decreases line.len(),
{
    if line.len() > 0 {
        lemma_segments_all_filled(line.drop_last());
        assert(segments(line) =~= seq![line.len()]);
    }
}

/// A line with no filled cell has no runs, so its clue is empty.
pub proof fn law_empty_line_has_empty_clue(line: Seq<Cell>)
    requires
        forall|i: int| 0 <= i < line.len() ==> line[i] == Cell::Empty,
    ensures
        line_clues(line) == Seq::<u8>::empty(),
{
    lemma_segments_all_empty(line);
    lemma_kept_zeros(line.len() + 1);
}

/// A completely filled line of 1 to 255 cells has a single run: its length.
pub proof fn law_full_line_has_one_run(line: Seq<Cell>)
    requires
        forall|i: int| 0 <= i < line.len() ==> line[i] == Cell::Filled,
        1 <= line.len() <= 255,
    ensures
        line_clues(line) == seq![line.len() as u8],
{
    lemma_segments_all_filled(line);
    let s = seq![line.len()];
    assert(s.drop_last() =~= Seq::<nat>::empty());
    assert(kept_lengths(Seq::<nat>::empty()) == Seq::<u8>::empty());
    assert(s.last() == line.len());
    assert(line.len() % 256 == line.len()) by (nonlinear_arith)
        requires 1 <= line.len() <= 255;
    assert(((s.last() % 256) as u8) == line.len() as u8);
    assert(kept_lengths(s) =~= seq![line.len() as u8]);
}

/// A freshly made nonogram is empty, and with no clues it counts as solved.
pub proof fn law_new_is_empty(n: Nonogram, size: (u32, u32))
    requires
        n.size == size,
        n.cells@ == Seq::new((size.0 * size.1) as nat, |i: int| Cell::Empty),
    ensures
        forall|i: int| 0 <= i < n.cells@.len() ==> n.cells@[i] == Cell::Empty,
        n.horizontal_clues@.len() == 0 && n.vertical_clues@.len() == 0 ==> n.solved(),
{
}

/// Writing a cell and reading it back gives the written cell; other cells
/// keep their values.
pub proof fn law_set_then_get(n: Nonogram, pos: (u32, u32), cell: Cell, next: Nonogram, other: (u32, u32))
    requires
        pos_index(n.size.0, pos) < n.cells@.len(),
        next.size == n.size,
        next.cells@ == n.cells@.update(pos_index(n.size.0, pos), cell),
        0 <= pos_index(n.size.0, other) < n.cells@.len(),
        pos_index(n.size.0, other) != pos_index(n.size.0, pos),
    ensures
        next.cells@[pos_index(next.size.0, pos)] == cell,
        next.cells@[pos_index(next.size.0, other)] == n.cells@[pos_index(n.size.0, other)],
{
}

} // verus!
