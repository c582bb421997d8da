//! The board: a rectangular grid of cells with the colored
//! Game-of-Life step rule.

use vstd::prelude::*;

use crate::cell::{Cell, Color, spec_color_of_index, color_of_index, COLOR_COUNT};

verus! {

impl View for Cell {
    type V = Cell;

    open spec fn view(&self) -> Cell {
        *self
    }
}

impl DeepView for Cell {
    type V = Cell;

    open spec fn deep_view(&self) -> Cell {
        *self
    }
}

/// A rectangular grid of cells, row-major: `cells[y][x]` is the cell in
/// column `x` of row `y`.
pub struct Board {
    pub width: u16,
    pub height: u16,
    pub cells: Vec<Vec<Cell>>,
}

/// Relies on rand::random: a fresh draw from the thread-local random
/// generator. Nothing is promised of the value.
pub assume_specification<T>[ rand::random::<T> ]() -> (r: T)
    where
        rand::distr::StandardUniform: rand::distr::Distribution<T>,
;

/// A grid is well-formed for dimensions `w` by `h` when it has exactly
/// `h` rows of exactly `w` cells each.
pub open spec fn grid_wf(g: Seq<Seq<Cell>>, w: int, h: int) -> bool {
    &&& g.len() == h
    &&& forall|y: int| 0 <= y < h ==> (#[trigger] g[y]).len() == w
}

/// Every cell of the grid is dead.
pub open spec fn grid_all_dead(g: Seq<Seq<Cell>>, w: int, h: int) -> bool {
    forall|x: int, y: int| 0 <= x < w && 0 <= y < h ==> #[trigger] g[y][x] == Cell::Dead
}

/// The grid holds a live cell at (x, y); false off the grid.
pub open spec fn is_live(g: Seq<Seq<Cell>>, w: int, h: int, x: int, y: int) -> bool {
    0 <= x < w && 0 <= y < h && g[y][x] is Alive
}

/// The grid holds a live cell of color `c` at (x, y); false off the grid.
pub open spec fn is_live_with(g: Seq<Seq<Cell>>, w: int, h: int, x: int, y: int, c: Color) -> bool {
    0 <= x < w && 0 <= y < h && g[y][x] == Cell::Alive(c)
}

/// One for true, zero for false: the indicator the neighbor counts sum.
pub open spec fn b2i(b: bool) -> int {
    if b {
        1
    } else {
        0
    }
}

/// How many of the eight Moore neighbors of (x, y) are alive, of any
/// color. Neighbors off the grid count as dead.
pub open spec fn live_neighbors(g: Seq<Seq<Cell>>, w: int, h: int, x: int, y: int) -> int {
    b2i(is_live(g, w, h, x - 1, y - 1)) + b2i(is_live(g, w, h, x - 1, y)) + b2i(
        is_live(g, w, h, x - 1, y + 1),
    ) + b2i(is_live(g, w, h, x, y - 1)) + b2i(is_live(g, w, h, x, y + 1)) + b2i(
        is_live(g, w, h, x + 1, y - 1),
    ) + b2i(is_live(g, w, h, x + 1, y)) + b2i(is_live(g, w, h, x + 1, y + 1))
}

/// How many of the eight Moore neighbors of (x, y) are alive with color
/// `c` exactly.
pub open spec fn color_neighbors(
    g: Seq<Seq<Cell>>,
    w: int,
    h: int,
    x: int,
    y: int,
    c: Color,
) -> int {
    b2i(is_live_with(g, w, h, x - 1, y - 1, c)) + b2i(is_live_with(g, w, h, x - 1, y, c)) + b2i(
        is_live_with(g, w, h, x - 1, y + 1, c),
    ) + b2i(is_live_with(g, w, h, x, y - 1, c)) + b2i(is_live_with(g, w, h, x, y + 1, c)) + b2i(
        is_live_with(g, w, h, x + 1, y - 1, c),
    ) + b2i(is_live_with(g, w, h, x + 1, y, c)) + b2i(is_live_with(g, w, h, x + 1, y + 1, c))
}

/// The positions in the fixed color order, below `n`, of the colors that
/// contribute at least one live neighbor of (x, y), in increasing order.
pub open spec fn live_color_indices_upto(
    g: Seq<Seq<Cell>>,
    w: int,
    h: int,
    x: int,
    y: int,
    n: int,
) -> Seq<int>
    decreases n,
{
    if n <= 0 {
        Seq::empty()
    } else {
        let rest = live_color_indices_upto(g, w, h, x, y, n - 1);
        if color_neighbors(g, w, h, x, y, spec_color_of_index(n - 1)) > 0 {
            rest.push(n - 1)
        } else {
            rest
        }
    }
}

/// The positions, in the fixed color order, of the distinct colors among
/// the live neighbors of (x, y), in increasing order.
pub open spec fn live_color_indices(g: Seq<Seq<Cell>>, w: int, h: int, x: int, y: int) -> Seq<
    int,
> {
    live_color_indices_upto(g, w, h, x, y, COLOR_COUNT as int)
}

/// The cell born at a dead position: with one contributing color, that
/// color; with two, the strictly more frequent one; with three, the one
/// chosen by `pick` (reduced modulo three). Any other spread of colors
/// leaves the position dead, which cannot arise from exactly three live
/// neighbors.
pub open spec fn spec_birth(g: Seq<Seq<Cell>>, w: int, h: int, x: int, y: int, pick: nat) -> Cell {
    let idxs = live_color_indices(g, w, h, x, y);
    if idxs.len() == 1 {
        Cell::Alive(spec_color_of_index(idxs[0]))
    } else if idxs.len() == 2 {
        let c0 = spec_color_of_index(idxs[0]);
        let c1 = spec_color_of_index(idxs[1]);
        if color_neighbors(g, w, h, x, y, c0) > color_neighbors(g, w, h, x, y, c1) {
            Cell::Alive(c0)
        } else {
            Cell::Alive(c1)
        }
    } else if idxs.len() == 3 {
        Cell::Alive(spec_color_of_index(idxs[(pick % 3) as int]))
    } else {
        Cell::Dead
    }
}

/// One generation of the rule at (x, y): a live cell survives, keeping
/// its color, exactly when it has two or three live neighbors; a dead
/// cell is born exactly when it has three, with the color resolved by
/// `spec_birth`. `pick` decides only the three-distinct-color birth.
pub open spec fn spec_step(g: Seq<Seq<Cell>>, w: int, h: int, x: int, y: int, pick: nat) -> Cell {
    let n = live_neighbors(g, w, h, x, y);
    if is_live(g, w, h, x, y) {
        if n == 2 || n == 3 {
            g[y][x]
        } else {
            Cell::Dead
        }
    } else {
        if n == 3 {
            spec_birth(g, w, h, x, y, pick)
        } else {
            Cell::Dead
        }
    }
}

/// Cell `c` is a possible step of grid `g` at (x, y): it is the result
/// of the rule there for some choice deciding a three-distinct-color
/// birth.
pub open spec fn cell_stepped(g: Seq<Seq<Cell>>, w: int, h: int, x: int, y: int, c: Cell) -> bool {
    exists|pick: nat| c == spec_step(g, w, h, x, y, pick)
}

/// Grid `g2` is a possible next generation of grid `g`: same dimensions,
/// and every cell is the step of the old grid at its position.
pub open spec fn step_rel(g: Seq<Seq<Cell>>, g2: Seq<Seq<Cell>>, w: int, h: int) -> bool {
    &&& grid_wf(g2, w, h)
    &&& forall|x: int, y: int|
        0 <= x < w && 0 <= y < h ==> #[trigger] cell_stepped(g, w, h, x, y, g2[y][x])
}

/// The cell that one draw of the random fill yields: alive when the
/// first draw lands on a multiple of `frac` (so with chance one in
/// `frac`), colored by the second draw, uniform over the eight-color
/// palette; otherwise dead.
pub open spec fn spec_random_cell(frac: u32, r1: u32, r2: u32) -> Cell {
    if r1 % frac == 0 {
        Cell::Alive(spec_color_of_index((r2 % 8) as int))
    } else {
        Cell::Dead
    }
}

/// Cell `c` is a possible outcome of one random fill draw with divisor `d`.
pub open spec fn randomized_cell(c: Cell, d: u32) -> bool {
    exists|r1: u32, r2: u32| c == #[trigger] spec_random_cell(d, r1, r2)
}

/// Every cell of the grid is a possible outcome of one random fill draw
/// with divisor `d`.
pub open spec fn grid_randomized(g: Seq<Seq<Cell>>, w: int, h: int, d: u32) -> bool {
    forall|x: int, y: int|
        0 <= x < w && 0 <= y < h ==> #[trigger] randomized_cell(g[y][x], d)
}

/// How many cells of the row are alive with color `c`.
pub open spec fn row_color_count(row: Seq<Cell>, c: Color) -> int
    decreases row.len(),
{
    if row.len() <= 0 {
        0
    } else {
        row_color_count(row.drop_last(), c) + b2i(row.last() == Cell::Alive(c))
    }
}

/// How many cells of the grid are alive with color `c`.
pub open spec fn grid_color_count(g: Seq<Seq<Cell>>, c: Color) -> int
    decreases g.len(),
{
    if g.len() <= 0 {
        0
    } else {
        grid_color_count(g.drop_last(), c) + row_color_count(g.last(), c)
    }
}

/// The positions in the fixed color order, below `n`, of the colors
/// with at least one live cell on the grid, in increasing order.
pub open spec fn population_indices_upto(g: Seq<Seq<Cell>>, n: int) -> Seq<int>
    decreases n,
{
    if n <= 0 {
        Seq::empty()
    } else {
        let rest = population_indices_upto(g, n - 1);
        if grid_color_count(g, spec_color_of_index(n - 1)) > 0 {
            rest.push(n - 1)
        } else {
            rest
        }
    }
}

/// The positions, in the fixed color order, of the distinct colors with
/// at least one live cell on the grid, in increasing order.
pub open spec fn population_indices(g: Seq<Seq<Cell>>) -> Seq<int> {
    population_indices_upto(g, COLOR_COUNT as int)
}

/// `pop` is the population listing of grid `g`: one entry per color with
/// at least one live cell, in the fixed color order, carrying that
/// color's exact live count. Colors without live cells do not appear.
pub open spec fn population_rel(g: Seq<Seq<Cell>>, pop: Seq<(Color, u64)>) -> bool {
    &&& pop.len() == population_indices(g).len()
    &&& forall|j: int|
        0 <= j < pop.len() ==> {
            &&& (#[trigger] pop[j]).0 == spec_color_of_index(population_indices(g)[j])
            &&& pop[j].1 as int == grid_color_count(g, pop[j].0)
            &&& pop[j].1 > 0
        }
}

/// The grid after writing `c` at (x, y); writes outside the dimensions
/// leave the grid unchanged.
pub open spec fn grid_set(g: Seq<Seq<Cell>>, w: int, h: int, x: int, y: int, c: Cell) -> Seq<
    Seq<Cell>,
> {
    if 0 <= x < w && 0 <= y < h {
        g.update(y, g[y].update(x, c))
    } else {
        g
    }
}

/// A row of dead cells holds no live cell of any color.
pub proof fn lemma_dead_row_count(row: Seq<Cell>, c: Color)
    requires
        forall|i: int| 0 <= i < row.len() ==> #[trigger] row[i] == Cell::Dead,
    ensures
        row_color_count(row, c) == 0,
    decreases row.len(),
{
    if row.len() > 0 {
        lemma_dead_row_count(row.drop_last(), c);
    }
}

/// An all-dead grid holds no live cell of any color.
pub proof fn lemma_dead_grid_count(g: Seq<Seq<Cell>>, w: int, h: int, c: Color)
    requires
        grid_wf(g, w, h),
        grid_all_dead(g, w, h),
    ensures
        grid_color_count(g, c) == 0,
    decreases g.len(),
{
    if g.len() > 0 {
        lemma_dead_grid_count(g.drop_last(), w, h - 1, c);
        assert forall|i: int| 0 <= i < g.last().len() implies #[trigger] g.last()[i]
            == Cell::Dead by {
            assert(g[h - 1][i] == Cell::Dead);
        }
        lemma_dead_row_count(g.last(), c);
    }
}

/// An all-dead grid has an empty population listing.
pub proof fn lemma_dead_grid_population(g: Seq<Seq<Cell>>, w: int, h: int, n: int)
    requires
        grid_wf(g, w, h),
        grid_all_dead(g, w, h),
        0 <= n <= COLOR_COUNT as int,
    ensures
        population_indices_upto(g, n) =~= Seq::<int>::empty(),
    decreases n,
{
    if n > 0 {
        lemma_dead_grid_population(g, w, h, n - 1);
        lemma_dead_grid_count(g, w, h, spec_color_of_index(n - 1));
    }
}

impl View for Board {
    type V = Seq<Seq<Cell>>;

    open spec fn view(&self) -> Seq<Seq<Cell>> {
        self.cells.deep_view()
    }
}

/// A row of the two-level view of the grid is the view of the stored row.
pub broadcast proof fn lemma_grid_row(cells: Vec<Vec<Cell>>, y: int)
    requires
        0 <= y < cells@.len(),
    ensures
        (#[trigger] cells.deep_view()[y]) == cells@[y]@,
{
    assert(cells@[y].deep_view() =~= cells@[y]@);
}

impl Board {
    /// The grid has exactly `height` rows of exactly `width` cells.
    pub open spec fn wf(&self) -> bool {
        grid_wf(self@, self.width as int, self.height as int)
    }

    /// A fresh board of the given dimensions with every cell dead.
    pub fn new(width: u16, height: u16) -> (r: Board)
        ensures
            r.wf(),
            r.width == width,
            r.height == height,
            grid_all_dead(r@, width as int, height as int),
    {
        let mut cells: Vec<Vec<Cell>> = Vec::new();
        let mut y: u16 = 0;
        while y < height
            invariant
                y <= height,
                cells@.len() == y as int,
                forall|r: int| 0 <= r < y as int ==> (#[trigger] cells@[r])@.len() == width as int,
                forall|c: int, r: int|
                    0 <= c < width as int && 0 <= r < y as int ==> #[trigger] cells@[r]@[c]
                        == Cell::Dead,
            decreases height - y,
        {
            let mut row: Vec<Cell> = Vec::new();
            let mut x: u16 = 0;
            while x < width
                invariant
                    x <= width,
                    row@.len() == x as int,
                    forall|c: int| 0 <= c < x as int ==> #[trigger] row@[c] == Cell::Dead,
                decreases width - x,
            {
                row.push(Cell::Dead);
                x = x + 1;
            }
            cells.push(row);
            y = y + 1;
        }
        let r = Board { width, height, cells };
        proof {
            assert forall|yy: int| 0 <= yy < height as int implies (#[trigger] r@[yy]).len()
                == width as int by {
                lemma_grid_row(r.cells, yy);
            }
            assert forall|xx: int, yy: int|
                0 <= xx < width as int && 0 <= yy < height as int implies #[trigger] r@[yy][xx]
                == Cell::Dead by {
                lemma_grid_row(r.cells, yy);
            }
        }
        r
    }

    /// The cell at an in-bounds coordinate.
    pub fn get(&self, x: u16, y: u16) -> (c: Cell)
        requires
            self.wf(),
            x < self.width,
            y < self.height,
        ensures
            c == self@[y as int][x as int],
    {
        self.cells[y as usize][x as usize]
    }

    /// Writes `cell` at (x, y). Out-of-range coordinates are silently
    /// ignored: the board is unchanged.
    pub fn set(&mut self, x: u16, y: u16, cell: Cell)
        requires
            old(self).wf(),
        ensures
            final(self).wf(),
            final(self).width == old(self).width,
            final(self).height == old(self).height,
            final(self)@ == grid_set(
                old(self)@,
                old(self).width as int,
                old(self).height as int,
                x as int,
                y as int,
                cell,
            ),
    {
        if x < self.width && y < self.height {
            proof {
                lemma_grid_row(self.cells, y as int);
            }
            self.cells[y as usize][x as usize] = cell;
            proof {
                assert forall|r: int| 0 <= r < self.cells@.len() implies (
                #[trigger] self@[r]) == old(self)@.update(
                    y as int,
                    old(self)@[y as int].update(x as int, cell),
                )[r] by {
                    lemma_grid_row(self.cells, r);
                    lemma_grid_row(old(self).cells, r);
                    if r == y as int {
                        assert(self.cells@[r]@ =~= old(self).cells@[r]@.update(x as int, cell));
                    }
                }
                assert(self@ =~~= old(self)@.update(
                    y as int,
                    old(self)@[y as int].update(x as int, cell),
                ));
            }
        }
    }

    /// Whether (x, y) holds a live cell; coordinates may point off the
    /// grid, where the answer is false.
    fn probe_live(&self, x: i32, y: i32) -> (r: bool)
        requires
            self.wf(),
        ensures
            r == is_live(self@, self.width as int, self.height as int, x as int, y as int),
    {
        if 0 <= x && x < self.width as i32 && 0 <= y && y < self.height as i32 {
            proof {
                lemma_grid_row(self.cells, y as int);
            }
            match self.cells[y as usize][x as usize] {
                Cell::Alive(_) => true,
                Cell::Dead => false,
            }
        } else {
            false
        }
    }

    /// Whether (x, y) holds a live cell of color `c`; coordinates may
    /// point off the grid, where the answer is false.
    fn probe_color(&self, x: i32, y: i32, c: Color) -> (r: bool)
        requires
            self.wf(),
        ensures
            r == is_live_with(self@, self.width as int, self.height as int, x as int, y as int, c),
    {
        if 0 <= x && x < self.width as i32 && 0 <= y && y < self.height as i32 {
            proof {
                lemma_grid_row(self.cells, y as int);
            }
            self.cells[y as usize][x as usize] == Cell::Alive(c)
        } else {
            false
        }
    }

    /// The number of live cells among the eight neighbors of (x, y).
    fn live_count_at(&self, x: u16, y: u16) -> (n: u8)
        requires
            self.wf(),
        ensures
            n as int == live_neighbors(self@, self.width as int, self.height as int, x as int, y as int),
    {
        let xi = x as i32;
        let yi = y as i32;
        let mut n: u8 = 0;
        if self.probe_live(xi - 1, yi - 1) {
            n = n + 1;
        }
        if self.probe_live(xi - 1, yi) {
            n = n + 1;
        }
        if self.probe_live(xi - 1, yi + 1) {
            n = n + 1;
        }
        if self.probe_live(xi, yi - 1) {
            n = n + 1;
        }
        if self.probe_live(xi, yi + 1) {
            n = n + 1;
        }
        if self.probe_live(xi + 1, yi - 1) {
            n = n + 1;
        }
        if self.probe_live(xi + 1, yi) {
            n = n + 1;
        }
        if self.probe_live(xi + 1, yi + 1) {
            n = n + 1;
        }
        n
    }

    /// The number of live cells of color `c` among the eight neighbors
    /// of (x, y).
    fn color_count_at(&self, x: u16, y: u16, c: Color) -> (n: u8)
        requires
            self.wf(),
        ensures
            n as int == color_neighbors(
                self@,
                self.width as int,
                self.height as int,
                x as int,
                y as int,
                c,
            ),
    {
        let xi = x as i32;
        let yi = y as i32;
        let mut n: u8 = 0;
        if self.probe_color(xi - 1, yi - 1, c) {
            n = n + 1;
        }
        if self.probe_color(xi - 1, yi, c) {
            n = n + 1;
        }
        if self.probe_color(xi - 1, yi + 1, c) {
            n = n + 1;
        }
        if self.probe_color(xi, yi - 1, c) {
            n = n + 1;
        }
        if self.probe_color(xi, yi + 1, c) {
            n = n + 1;
        }
        if self.probe_color(xi + 1, yi - 1, c) {
            n = n + 1;
        }
        if self.probe_color(xi + 1, yi, c) {
            n = n + 1;
        }
        if self.probe_color(xi + 1, yi + 1, c) {
            n = n + 1;
        }
        n
    }

    /// The cell born at the dead position (x, y), resolved from the
    /// distinct colors among its live neighbors; `pick` decides the
    /// three-distinct-color case.
    fn birth_cell(&self, x: u16, y: u16, pick: u8) -> (c: Cell)
        requires
            self.wf(),
            x < self.width,
            y < self.height,
        ensures
            c == spec_birth(
                self@,
                self.width as int,
                self.height as int,
                x as int,
                y as int,
                pick as nat,
            ),
    {
        let ghost w = self.width as int;
        let ghost h = self.height as int;
        let mut found: Vec<(u8, u8)> = Vec::new();
        let mut i: u8 = 0;
        while i < COLOR_COUNT
            invariant
                self.wf(),
                w == self.width as int,
                h == self.height as int,
                x < self.width,
                y < self.height,
                i <= COLOR_COUNT,
                found@.len() == live_color_indices_upto(
                    self@,
                    w,
                    h,
                    x as int,
                    y as int,
                    i as int,
                ).len(),
                forall|j: int|
                    0 <= j < found@.len() ==> {
                        let idxs = live_color_indices_upto(self@, w, h, x as int, y as int, i as int);
                        &&& (#[trigger] found@[j]).0 as int == idxs[j]
                        &&& found@[j].0 < COLOR_COUNT
                        &&& found@[j].1 as int == color_neighbors(
                            self@,
                            w,
                            h,
                            x as int,
                            y as int,
                            spec_color_of_index(idxs[j]),
                        )
                    },
            decreases COLOR_COUNT - i,
        {
            let cnt = self.color_count_at(x, y, color_of_index(i));
            if cnt > 0 {
                found.push((i, cnt));
            }
            i = i + 1;
        }
        if found.len() == 1 {
            Cell::Alive(color_of_index(found[0].0))
        } else if found.len() == 2 {
            if found[0].1 > found[1].1 {
                Cell::Alive(color_of_index(found[0].0))
            } else {
                Cell::Alive(color_of_index(found[1].0))
            }
        } else if found.len() == 3 {
            Cell::Alive(color_of_index(found[(pick % 3) as usize].0))
        } else {
            Cell::Dead
        }
    }

    /// One step of the rule at (x, y), with `pick` deciding a
    /// three-distinct-color birth.
    fn update_cell(&self, x: u16, y: u16, pick: u8) -> (c: Cell)
        requires
            self.wf(),
            x < self.width,
            y < self.height,
        ensures
            c == spec_step(
                self@,
                self.width as int,
                self.height as int,
                x as int,
                y as int,
                pick as nat,
            ),
    {
        let n = self.live_count_at(x, y);
        match self.get(x, y) {
            Cell::Alive(col) => {
                if n == 2 || n == 3 {
                    Cell::Alive(col)
                } else {
                    Cell::Dead
                }
            },
            Cell::Dead => {
                if n == 3 {
                    self.birth_cell(x, y, pick)
                } else {
                    Cell::Dead
                }
            },
        }
    }

    /// The next generation of the whole grid, freshly allocated, the
    /// board itself untouched.
    pub(crate) fn next_grid(&self) -> (g: Vec<Vec<Cell>>)
        requires
            self.wf(),
        ensures
            step_rel(self@, g.deep_view(), self.width as int, self.height as int),
    {
        let ghost w = self.width as int;
        let ghost h = self.height as int;
        let mut rows: Vec<Vec<Cell>> = Vec::new();
        let mut y: u16 = 0;
        while y < self.height
            invariant
                self.wf(),
                w == self.width as int,
                h == self.height as int,
                y <= self.height,
                rows@.len() == y as int,
                forall|r: int| 0 <= r < y as int ==> (#[trigger] rows@[r])@.len() == w,
                forall|xx: int, yy: int|
                    0 <= xx < w && 0 <= yy < y as int ==> #[trigger] cell_stepped(
                        self@,
                        w,
                        h,
                        xx,
                        yy,
                        rows@[yy]@[xx],
                    ),
            decreases self.height - y,
        {
            let mut row: Vec<Cell> = Vec::new();
            let mut x: u16 = 0;
            while x < self.width
                invariant
                    self.wf(),
                    w == self.width as int,
                    h == self.height as int,
                    x <= self.width,
                    y < self.height,
                    row@.len() == x as int,
                    forall|xx: int|
                        0 <= xx < x as int ==> #[trigger] cell_stepped(
                            self@,
                            w,
                            h,
                            xx,
                            y as int,
                            row@[xx],
                        ),
                decreases self.width - x,
            {
                let pick: u8 = rand::random();
                let c = self.update_cell(x, y, pick);
                row.push(c);
                proof {
                    assert(row@[x as int] == spec_step(self@, w, h, x as int, y as int, pick as nat));
                    assert(cell_stepped(self@, w, h, x as int, y as int, row@[x as int]));
                }
                x = x + 1;
            }
            rows.push(row);
            y = y + 1;
        }
        proof {
            assert forall|yy: int| 0 <= yy < h implies (#[trigger] rows.deep_view()[yy]).len()
                == w by {
                lemma_grid_row(rows, yy);
            }
            assert forall|xx: int, yy: int| 0 <= xx < w && 0 <= yy < h implies #[trigger] cell_stepped(
                self@,
                w,
                h,
                xx,
                yy,
                rows.deep_view()[yy][xx],
            ) by {
                lemma_grid_row(rows, yy);
            }
        }
        rows
    }

    /// Advances the whole board by one generation, computed into a fresh
    /// grid and then swapped in, so that every cell steps against the
    /// old generation.
    pub fn update(&mut self)
        requires
            old(self).wf(),
        ensures
            final(self).wf(),
            final(self).width == old(self).width,
            final(self).height == old(self).height,
            step_rel(old(self)@, final(self)@, old(self).width as int, old(self).height as int),
    {
        let g = self.next_grid();
        self.cells = g;
    }

    /// One draw of the random fill: alive with chance one in `frac`,
    /// its color uniform over the eight-color palette.
    pub fn random_cell(frac: u32) -> (c: Cell)
        requires
            1 <= frac,
        ensures
            randomized_cell(c, frac),
    {
        let r1: u32 = rand::random();
        if r1 % frac == 0 {
            let r2: u32 = rand::random();
            let col = color_of_index((r2 % 8) as u8);
            let c = Cell::Alive(col);
            proof {
                assert(c == spec_random_cell(frac, r1, r2));
            }
            c
        } else {
            proof {
                assert(Cell::Dead == spec_random_cell(frac, r1, 0));
            }
            Cell::Dead
        }
    }

    /// Replaces the whole grid with a fresh random pattern: a density
    /// divisor is drawn between 2 and 6, then every cell is drawn
    /// independently by `random_cell`.
    pub fn randomize(&mut self)
        requires
            old(self).wf(),
        ensures
            final(self).wf(),
            final(self).width == old(self).width,
            final(self).height == old(self).height,
            exists|d: u32|
                2 <= d <= 6 && grid_randomized(
                    final(self)@,
                    old(self).width as int,
                    old(self).height as int,
                    d,
                ),
    {
        let ghost w = self.width as int;
        let ghost h = self.height as int;
        self.clear();
        let r: u32 = rand::random();
        let d = (r % 5) + 2;
        let mut x: u16 = 0;
        while x < self.width
            invariant
                self.wf(),
                w == self.width as int,
                h == self.height as int,
                2 <= d <= 6,
                x <= self.width,
                forall|xx: int, yy: int|
                    0 <= xx < x as int && 0 <= yy < h ==> #[trigger] randomized_cell(
                        self@[yy][xx],
                        d,
                    ),
            decreases self.width - x,
        {
            let mut y: u16 = 0;
            while y < self.height
                invariant
                    self.wf(),
                    w == self.width as int,
                    h == self.height as int,
                    2 <= d <= 6,
                    x < self.width,
                    y <= self.height,
                    forall|xx: int, yy: int|
                        0 <= xx < x as int && 0 <= yy < h ==> #[trigger] randomized_cell(
                            self@[yy][xx],
                            d,
                        ),
                    forall|yy: int|
                        0 <= yy < y as int ==> #[trigger] randomized_cell(self@[yy][x as int], d),
                decreases self.height - y,
            {
                let c = Self::random_cell(d);
                self.set(x, y, c);
                y = y + 1;
            }
            x = x + 1;
        }
        proof {
            assert(grid_randomized(self@, w, h, d));
        }
    }

    /// How many cells of the whole grid are alive with color `c`.
    pub fn count_color(&self, c: Color) -> (n: u64)
        requires
            self.wf(),
        ensures
            n as int == grid_color_count(self@, c),
    {
        let ghost w = self.width as int;
        let ghost h = self.height as int;
        let mut n: u64 = 0;
        let mut y: u16 = 0;
        while y < self.height
            invariant
                self.wf(),
                w == self.width as int,
                h == self.height as int,
                y <= self.height,
                n as int == grid_color_count(self@.take(y as int), c),
                n <= (y as int) * w,
            decreases self.height - y,
        {
            let mut m: u16 = 0;
            let mut x: u16 = 0;
            while x < self.width
                invariant
                    self.wf(),
                    w == self.width as int,
                    h == self.height as int,
                    y < self.height,
                    x <= self.width,
                    m as int == row_color_count(self@[y as int].take(x as int), c),
                    m <= x,
                decreases self.width - x,
            {
                let cur = self.get(x, y);
                if cur == Cell::Alive(c) {
                    m = m + 1;
                }
                proof {
                    assert(self@[y as int].take(x as int + 1).drop_last() =~= self@[y as int].take(
                        x as int,
                    ));
                    assert(self@[y as int].take(x as int + 1).last() == self@[y as int][x as int]);
                }
                x = x + 1;
            }
            proof {
                assert(self@[y as int].take(w) =~= self@[y as int]);
                assert(self@.take(y as int + 1).drop_last() =~= self@.take(y as int));
                assert(self@.take(y as int + 1).last() == self@[y as int]);
                assert((y as int + 1) * w == (y as int) * w + w) by (nonlinear_arith);
                assert((y as int) * w + w <= 0x1_0000_0000_0000_0000 - 2) by (nonlinear_arith)
                    requires
                        0 <= y < 0x1_0000,
                        0 <= w < 0x1_0000,
                ;
            }
            n = n + m as u64;
            y = y + 1;
        }
        proof {
            assert(self@.take(h) =~= self@);
        }
        n
    }

    /// The population of the board: for each color, in the fixed color
    /// order, the number of live cells of that color, listing exactly
    /// the colors with at least one live cell.
    pub fn count_population(&self) -> (pop: Vec<(Color, u64)>)
        requires
            self.wf(),
        ensures
            population_rel(self@, pop@),
    {
        let mut pop: Vec<(Color, u64)> = Vec::new();
        let mut i: u8 = 0;
        while i < COLOR_COUNT
            invariant
                self.wf(),
                i <= COLOR_COUNT,
                pop@.len() == population_indices_upto(self@, i as int).len(),
                forall|j: int|
                    0 <= j < pop@.len() ==> {
                        let idxs = population_indices_upto(self@, i as int);
                        &&& (#[trigger] pop@[j]).0 == spec_color_of_index(idxs[j])
                        &&& pop@[j].1 as int == grid_color_count(self@, pop@[j].0)
                        &&& pop@[j].1 > 0
                    },
            decreases COLOR_COUNT - i,
        {
            let col = color_of_index(i);
            let cnt = self.count_color(col);
            if cnt > 0 {
                pop.push((col, cnt));
            }
            i = i + 1;
        }
        pop
    }

    /// Sets every cell to dead; the dimensions are unchanged.
    pub fn clear(&mut self)
        requires
            old(self).wf(),
        ensures
            final(self).wf(),
            final(self).width == old(self).width,
            final(self).height == old(self).height,
            grid_all_dead(final(self)@, old(self).width as int, old(self).height as int),
    {
        let fresh = Board::new(self.width, self.height);
        self.cells = fresh.cells;
    }
}

} // verus!
