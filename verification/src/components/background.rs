//! The background: snow that falls row by row over a ground.
//!
//! The snow is a grid of cells as wide and as high as the sky. A cell holds
//! one kind of snowflake or none. When the time for a row has passed, a new
//! row comes in at the top and the others move down by one; the lowest one
//! goes. When the sky changes its size, the grid follows: columns that are
//! lost are cut off, columns that are won are filled by lot, rows that are
//! lost go, and rows that are won are empty.
//!
//! Time is counted in milliseconds, the speed in rows per second, and how
//! thick the snow falls in snowflakes per million cells.

use vstd::prelude::*;
use vstd::string::*;
use rand::Rng;
use crate::constants::background::{flake_glyph, snowflake, GROUND_HEIGHT, SNOWFLAKE_KINDS};
use crate::layout::Rect;
use crate::pages::game::round::later;
use crate::text::split_rows;

verus! {

/// The cell that holds no snowflake.
pub const NO_FLAKE: usize = 3;

/// The cells in a million of which `density` hold a snowflake.
pub const MILLION: u32 = 1_000_000;

/// `rand::Rng::gen_range` on the generator of the thread, for the range
/// from 0 up to, not including, `n`: a number of that range. It must not be
/// asked for a number of an empty range.
#[verifier::external_body]
fn random_below(n: u32) -> (r: u32)
    requires
        n > 0,
    ensures
        r < n,
{
    rand::thread_rng().gen_range(0..n)
}

/// The background as a value.
pub struct BackgroundView {
    /// The rows that fall in a second.
    pub speed: u32,
    /// The cells of a million that hold a snowflake.
    pub density: u32,
    /// The milliseconds since a row last came in.
    pub elapsed: u32,
    /// The cells, row by row from the top.
    pub grid: Seq<Seq<usize>>,
    pub width: nat,
    pub height: nat,
    pub show_snowman: bool,
    pub show_tree: bool,
}

/// The rows `grid`, each cut to its first `width` cells.
pub open spec fn narrowed(grid: Seq<Seq<usize>>, width: nat) -> Seq<Seq<usize>> {
    grid.map_values(|row: Seq<usize>| row.take(width as int))
}

/// The rows `grid`, each with `grow` cells more, taken from `samples` in
/// order, row after row.
pub open spec fn widened(grid: Seq<Seq<usize>>, grow: nat, samples: Seq<usize>) -> Seq<Seq<usize>>
    decreases grid.len(),
{
    if grid.len() == 0 {
        Seq::empty()
    } else {
        seq![grid[0] + samples.take(grow as int)] + widened(
            grid.skip(1),
            grow,
            samples.skip(grow as int),
        )
    }
}

/// A row of `width` cells without snowflakes.
pub open spec fn blank_row(width: nat) -> Seq<usize> {
    Seq::new(width, |j: int| NO_FLAKE)
}

/// The rows `grid` brought to the number `height`: the first `height` of
/// them, or all of them and empty rows of `width` cells below.
pub open spec fn resized(grid: Seq<Seq<usize>>, height: nat, width: nat) -> Seq<Seq<usize>> {
    if height <= grid.len() {
        grid.take(height as int)
    } else {
        grid + Seq::new((height - grid.len()) as nat, |i: int| blank_row(width))
    }
}

/// The glyphs of the rows `grid`.
pub open spec fn snow_glyphs(grid: Seq<Seq<usize>>) -> Seq<Seq<char>> {
    grid.map_values(|row: Seq<usize>| row.map_values(|kind: usize| flake_glyph(kind)))
}

/// The columns that a grid `old_width` wide wins when it becomes `width`
/// wide.
pub open spec fn growth(old_width: nat, width: nat) -> nat {
    if width > old_width {
        (width - old_width) as nat
    } else {
        0
    }
}

impl BackgroundView {
    /// Whether the grid has the size that is noted.
    pub open spec fn well_formed(self) -> bool {
        &&& self.grid.len() == self.height
        &&& forall|i: int|
            0 <= i < self.grid.len() ==> (#[trigger] self.grid[i]).len() == self.width
        &&& self.width <= u16::MAX
        &&& self.height <= u16::MAX
    }

    /// Whether a row is due once `dt` more milliseconds have passed.
    pub open spec fn due(self, dt: u32) -> bool {
        later(self.elapsed, dt) * self.speed >= 1000
    }

    /// The number of cells that are filled by lot when the sky is `area`
    /// and `dt` milliseconds pass: the columns that each row wins, and the
    /// new row if one is due.
    pub open spec fn needed(self, area: Rect, dt: u32) -> nat {
        self.height * growth(self.width, area.width as nat) + if self.due(dt) {
            area.width as nat
        } else {
            0
        }
    }

    /// The grid fitted to the sky `area`, the columns won filled from
    /// `samples`.
    pub open spec fn fitted(self, area: Rect, samples: Seq<usize>) -> Seq<Seq<usize>> {
        let width = area.width as nat;
        let refit = if width < self.width {
            narrowed(self.grid, width)
        } else {
            widened(self.grid, growth(self.width, width), samples)
        };
        resized(refit, area.height as nat, width)
    }

    /// The background after `dt` milliseconds under the sky `area`, with
    /// the cells `samples` for what is filled by lot: the grid is fitted to
    /// the sky, and if a row is due, a row of the cells that follow in
    /// `samples` comes in at the top and the lowest row goes.
    pub open spec fn updated(self, area: Rect, dt: u32, samples: Seq<usize>) -> BackgroundView {
        let width = area.width as nat;
        let height = area.height as nat;
        let fitted = self.fitted(area, samples);
        let rest = samples.skip((self.height * growth(self.width, width)) as int);
        if self.due(dt) {
            BackgroundView {
                elapsed: 0,
                grid: (seq![rest.take(width as int)] + fitted).take(height as int),
                width,
                height,
                ..self
            }
        } else {
            BackgroundView { elapsed: later(self.elapsed, dt), grid: fitted, width, height, ..self }
        }
    }
}

/// Whether each of `cells` holds one kind of snowflake or none.
pub open spec fn snow_cells(cells: Seq<usize>) -> bool {
    forall|i: int| 0 <= i < cells.len() ==> #[trigger] cells[i] <= NO_FLAKE
}

/// The cell that two lots stand for: a snowflake of the kind `kind` where
/// `chance`, a number below a million, is below `density`, and none
/// where it is not.
pub open spec fn cell_of_lots(chance: u32, kind: u32, density: u32) -> usize {
    if chance < density {
        kind as usize
    } else {
        NO_FLAKE
    }
}

/// The cell that two lots stand for.
pub fn cell_from_lots(chance: u32, kind: u32, density: u32) -> (cell: usize)
    ensures
        cell == cell_of_lots(chance, kind, density),
{
    if chance < density {
        kind as usize
    } else {
        NO_FLAKE
    }
}

/// The background.
pub struct BackgroundState {
    speed: u32,
    density: u32,
    elapsed: u32,
    snowflakes: Vec<Vec<usize>>,
    width: usize,
    height: usize,
    show_snowman: bool,
    show_tree: bool,
}

/// The rows `rows` as values.
pub open spec fn grid_view(rows: Seq<Vec<usize>>) -> Seq<Seq<usize>> {
    rows.map_values(|row: Vec<usize>| row@)
}

impl View for BackgroundState {
    type V = BackgroundView;

    closed spec fn view(&self) -> BackgroundView {
        BackgroundView {
            speed: self.speed,
            density: self.density,
            elapsed: self.elapsed,
            grid: grid_view(self.snowflakes@),
            width: self.width as nat,
            height: self.height as nat,
            show_snowman: self.show_snowman,
            show_tree: self.show_tree,
        }
    }
}

/// The first `n` cells of `row`.
fn copy_prefix(row: &Vec<usize>, n: usize) -> (r: Vec<usize>)
    requires
        n <= row.len(),
    ensures
        r@ == row@.take(n as int),
{
    let mut r: Vec<usize> = Vec::new();
    let mut i: usize = 0;
    while i < n
        invariant
            i <= n <= row.len(),
            r@ == row@.take(i as int),
        decreases n - i,
    {
        r.push(row[i]);
        i += 1;
    }
    r
}

/// Adds the `n` cells of `samples` from place `from` on to `row`.
fn extend_from(row: &mut Vec<usize>, samples: &Vec<usize>, from: usize, n: usize)
    requires
        from + n <= samples.len(),
    ensures
        final(row)@ == old(row)@ + samples@.subrange(from as int, from + n),
{
    let mut k: usize = 0;
    while k < n
        invariant
            k <= n,
            from + n <= samples.len(),
            row@ == old(row)@ + samples@.subrange(from as int, from + k),
        decreases n - k,
    {
        row.push(samples[from + k]);
        k += 1;
    }
}

/// A row of `width` cells without snowflakes.
fn make_blank_row(width: usize) -> (r: Vec<usize>)
    ensures
        r@ == blank_row(width as nat),
{
    let mut r: Vec<usize> = Vec::new();
    let mut i: usize = 0;
    while i < width
        invariant
            i <= width,
            r@ == blank_row(i as nat),
        decreases width - i,
    {
        r.push(NO_FLAKE);
        i += 1;
        assert(r@ =~= blank_row(i as nat));
    }
    r
}

/// The glyphs of the cells `row`.
fn render_row(row: &Vec<usize>) -> (s: String)
    ensures
        s@ == row@.map_values(|kind: usize| flake_glyph(kind)),
{
    let mut s = String::new();
    let mut i: usize = 0;
    while i < row.len()
        invariant
            i <= row.len(),
            s@ == row@.take(i as int).map_values(|kind: usize| flake_glyph(kind)),
        decreases row.len() - i,
    {
        s.push(snowflake(row[i]));
        i += 1;
        assert(s@ =~= row@.take(i as int).map_values(|kind: usize| flake_glyph(kind)));
    }
    assert(row@.take(row.len() as int) =~= row@);
    s
}

/// Widening rows one after the other is widening them all.
proof fn lemma_widened_step(
    grid: Seq<Seq<usize>>,
    grow: nat,
    samples: Seq<usize>,
    i: int,
    used: int,
)
    requires
        0 <= i < grid.len(),
        0 <= used,
        used + grow <= samples.len(),
    ensures
        widened(grid.skip(i), grow, samples.skip(used)) == seq![
            grid[i] + samples.subrange(used, used + grow),
        ] + widened(grid.skip(i + 1), grow, samples.skip(used + grow)),
{
    let rest = grid.skip(i);
    assert(rest[0] == grid[i]);
    assert(rest.skip(1) =~= grid.skip(i + 1));
    assert(samples.skip(used).take(grow as int) =~= samples.subrange(used, used + grow));
    assert(samples.skip(used).skip(grow as int) =~= samples.skip(used + grow));
}

impl BackgroundState {
    /// Holds of every background: the grid has the size that is noted.
    #[verifier::type_invariant]
    pub closed spec fn well_formed(self) -> bool {
        self@.well_formed()
    }

    /// The background without snow, in which `speed` rows fall in a second
    /// and `density` cells of a million hold a snowflake, with snowman and
    /// tree.
    pub fn new(speed: u32, density: u32) -> (state: BackgroundState)
        ensures
            state@ == (BackgroundView {
                speed,
                density,
                elapsed: 0,
                grid: Seq::empty(),
                width: 0,
                height: 0,
                show_snowman: true,
                show_tree: true,
            }),
            state@.well_formed(),
    {
        let state = BackgroundState {
            speed,
            density,
            elapsed: 0,
            snowflakes: Vec::new(),
            width: 0,
            height: 0,
            show_snowman: true,
            show_tree: true,
        };
        assert(state@.grid =~= Seq::<Seq<usize>>::empty());
        state
    }

    /// Shows or hides snowman and tree.
    pub fn set_scenery(&mut self, show_snowman: bool, show_tree: bool)
        ensures
            final(self)@ == (BackgroundView { show_snowman, show_tree, ..old(self)@ }),
    {
        proof {
            use_type_invariant(&*self);
        }
        self.show_snowman = show_snowman;
        self.show_tree = show_tree;
    }

    /// Whether the snowman is shown.
    pub fn shows_snowman(&self) -> (b: bool)
        ensures
            b == self@.show_snowman,
    {
        self.show_snowman
    }

    /// Whether the tree is shown.
    pub fn shows_tree(&self) -> (b: bool)
        ensures
            b == self@.show_tree,
    {
        self.show_tree
    }

    /// A cell drawn by lot: the cell that two lots stand for, the first a
    /// number below a million that decides with how thick the snow falls
    /// whether the cell holds a snowflake, the second the kind of the
    /// snowflake, drawn only where there is one. So no cell holds a snowflake
    /// where no snow falls, and every cell holds one where a million cells of
    /// a million do.
    fn sample(&self) -> (cell: usize)
        ensures
            exists|chance: u32, kind: u32|
                chance < MILLION && kind < SNOWFLAKE_KINDS && cell == cell_of_lots(
                    chance,
                    kind,
                    self@.density,
                ),
            cell <= NO_FLAKE,
            self@.density == 0 ==> cell == NO_FLAKE,
            self@.density >= MILLION ==> cell < NO_FLAKE,
    {
        let chance = random_below(MILLION);
        let kind = if chance < self.density {
            random_below(SNOWFLAKE_KINDS as u32)
        } else {
            0
        };
        let cell = cell_from_lots(chance, kind, self.density);
        assert(chance < MILLION && kind < SNOWFLAKE_KINDS && cell == cell_of_lots(
            chance,
            kind,
            self@.density,
        ));
        cell
    }

    /// Whether a row is due once `dt` more milliseconds have passed.
    fn row_due(&self, dt: u32) -> (r: (bool, u32))
        ensures
            r.0 == self@.due(dt),
            r.1 == later(self@.elapsed, dt),
    {
        let elapsed: u32 = if self.elapsed as u64 + dt as u64 > u32::MAX as u64 {
            u32::MAX
        } else {
            self.elapsed + dt
        };
        assert(0 <= (elapsed as int) * (self.speed as int) <= 0xffff_ffff * 0xffff_ffff)
            by (nonlinear_arith)
            requires
                0 <= elapsed <= 0xffff_ffff,
                0 <= self.speed <= 0xffff_ffff,
        ;
        (elapsed as u64 * self.speed as u64 >= 1000, elapsed)
    }

    /// The number of cells that are filled by lot when the sky is `area`
    /// and `dt` milliseconds pass.
    pub fn draws_needed(&self, area: Rect, dt: u32) -> (n: usize)
        ensures
            n == self@.needed(area, dt),
    {
        proof {
            use_type_invariant(self);
        }
        let width = area.width as usize;
        let grow: usize = if width > self.width { width - self.width } else { 0 };
        assert(0 <= self.height * grow <= 0xffff * 0xffff) by (nonlinear_arith)
            requires
                0 <= self.height <= 0xffff,
                0 <= grow <= 0xffff,
        ;
        let (due, _) = self.row_due(dt);
        let fill: u64 = self.height as u64 * grow as u64 + if due { width as u64 } else { 0 };
        fill as usize
    }

    /// Lets `dt` milliseconds pass under the sky `area`, with the cells
    /// `samples` for what is filled by lot, and gives the glyphs of the
    /// snow, row by row from the top.
    pub fn update_with(&mut self, area: Rect, dt: u32, samples: &Vec<usize>) -> (rows: Vec<String>)
        requires
            samples.len() >= old(self)@.needed(area, dt),
        ensures
            final(self)@ == old(self)@.updated(area, dt, samples@),
            final(self)@.well_formed(),
            rows.deep_view() == snow_glyphs(final(self)@.grid),
    {
        proof {
            use_type_invariant(&*self);
        }
        let width = area.width as usize;
        let height = area.height as usize;
        let grow: usize = if width > self.width { width - self.width } else { 0 };
        let (due, elapsed) = self.row_due(dt);
        let ghost old_grid = grid_view(self.snowflakes@);
        let ghost old_height = self.height;
        assert(0 <= old_height * grow <= 0xffff * 0xffff) by (nonlinear_arith)
            requires
                0 <= old_height <= 0xffff,
                0 <= grow <= 0xffff,
        ;
        let mut grid: Vec<Vec<usize>> = Vec::new();
        let mut used: usize = 0;
        let mut i: usize = 0;
        proof {
            assert(old_grid.skip(0) =~= old_grid);
            assert(samples@.skip(0) =~= samples@);
            assert(grid_view(grid@) =~= Seq::<Seq<usize>>::empty());
            assert(old_grid.take(0) =~= Seq::<Seq<usize>>::empty());
            assert(narrowed(old_grid.take(0), width as nat) =~= Seq::<Seq<usize>>::empty());
        }
        while i < self.snowflakes.len()
            invariant
                i <= self.snowflakes.len(),
                self.snowflakes.len() == old_height,
                old_height <= 0xffff,
                grow <= 0xffff,
                width <= 0xffff,
                old_grid == grid_view(self.snowflakes@),
                forall|k: int|
                    0 <= k < old_grid.len() ==> (#[trigger] old_grid[k]).len() == self.width,
                grow == growth(self.width as nat, width as nat),
                used == i * grow,
                old_height * grow <= samples.len(),
                grid.len() == i,
                width < self.width ==> grid_view(grid@) == narrowed(
                    old_grid.take(i as int),
                    width as nat,
                ),
                width >= self.width ==> widened(old_grid, grow as nat, samples@) == grid_view(grid@)
                    + widened(old_grid.skip(i as int), grow as nat, samples@.skip(used as int)),
                forall|k: int| 0 <= k < grid.len() ==> (#[trigger] grid@[k]).len() == width,
            decreases self.snowflakes.len() - i,
        {
            let ghost before = grid_view(grid@);
            assert(old_grid[i as int] == self.snowflakes@[i as int]@);
            assert(self.snowflakes@[i as int].len() == self.width);
            if width < self.width {
                let row = copy_prefix(&self.snowflakes[i], width);
                grid.push(row);
                proof {
                    assert(grid_view(grid@) =~= before.push(row@));
                    assert(narrowed(old_grid.take(i + 1), width as nat) =~= narrowed(
                        old_grid.take(i as int),
                        width as nat,
                    ).push(old_grid[i as int].take(width as int)));
                }
            } else {
                let mut row = copy_prefix(&self.snowflakes[i], self.width);
                proof {
                    assert(row@ =~= old_grid[i as int]);
                    assert((i + 1) * grow == i * grow + grow) by (nonlinear_arith);
                    assert((i + 1) * grow <= old_height * grow) by (nonlinear_arith)
                        requires
                            i + 1 <= old_height,
                            grow >= 0,
                    ;
                    lemma_widened_step(old_grid, grow as nat, samples@, i as int, used as int);
                }
                extend_from(&mut row, samples, used, grow);
                grid.push(row);
                used += grow;
                proof {
                    assert(grid_view(grid@) =~= before.push(row@));
                    assert(before + (seq![row@] + widened(
                        old_grid.skip(i + 1),
                        grow as nat,
                        samples@.skip(used as int),
                    )) =~= before.push(row@) + widened(
                        old_grid.skip(i + 1),
                        grow as nat,
                        samples@.skip(used as int),
                    ));
                }
            }
            i += 1;
        }
        let ghost refit = grid_view(grid@);
        proof {
            assert(old_grid.take(old_height as int) =~= old_grid);
            assert(old_grid.skip(old_height as int) =~= Seq::<Seq<usize>>::empty());
            if width >= self.width {
                assert(refit + Seq::<Seq<usize>>::empty() =~= refit);
                assert(used == old_height * grow);
            } else {
                assert(grow == 0);
                assert(old_height * grow == 0) by (nonlinear_arith)
                    requires
                        grow == 0,
                ;
            }
        }
        if height < grid.len() {
            grid.truncate(height);
            assert(grid_view(grid@) =~= refit.take(height as int));
        } else {
            let missing = height - grid.len();
            let mut k: usize = 0;
            while k < missing
                invariant
                    k <= missing,
                    missing == height - refit.len(),
                    grid.len() == refit.len() + k,
                    grid_view(grid@) == refit + Seq::new(
                        k as nat,
                        |i: int| blank_row(width as nat),
                    ),
                    forall|j: int| 0 <= j < grid.len() ==> (#[trigger] grid@[j]).len() == width,
                decreases missing - k,
            {
                let ghost before = grid_view(grid@);
                let row = make_blank_row(width);
                grid.push(row);
                k += 1;
                proof {
                    assert(grid_view(grid@) =~= before.push(row@));
                    assert(before.push(blank_row(width as nat)) =~= refit + Seq::new(
                        k as nat,
                        |i: int| blank_row(width as nat),
                    ));
                }
            }
        }
        let ghost fitted = grid_view(grid@);
        assert(fitted == old(self)@.fitted(area, samples@));
        assert(grid.len() == height);
        let mut new_elapsed = elapsed;
        if due {
            new_elapsed = 0;
            let start = if width < self.width { 0 } else { used };
            assert(start == old_height * grow);
            let mut new_row: Vec<usize> = Vec::new();
            extend_from(&mut new_row, samples, start, width);
            proof {
                assert(new_row@ =~= samples@.skip(start as int).take(width as int));
            }
            grid.insert(0, new_row);
            grid.truncate(height);
            proof {
                assert(grid_view(grid@) =~= (seq![new_row@] + fitted).take(height as int));
            }
        }
        let mut rows: Vec<String> = Vec::new();
        let mut r: usize = 0;
        while r < grid.len()
            invariant
                r <= grid.len(),
                rows.len() == r,
                forall|j: int|
                    0 <= j < r ==> (#[trigger] rows@[j])@ == grid@[j]@.map_values(
                        |kind: usize| flake_glyph(kind),
                    ),
            decreases grid.len() - r,
        {
            rows.push(render_row(&grid[r]));
            r += 1;
        }
        proof {
            assert(rows.deep_view() =~= snow_glyphs(grid_view(grid@)));
        }
        *self = BackgroundState {
            speed: self.speed,
            density: self.density,
            elapsed: new_elapsed,
            snowflakes: grid,
            width,
            height,
            show_snowman: self.show_snowman,
            show_tree: self.show_tree,
        };
        rows
    }

    /// Lets `dt` milliseconds pass under the sky `area`, and gives the
    /// glyphs of the snow, row by row from the top. What is filled by lot is
    /// filled with cells that each hold one kind of snowflake or none.
    pub fn update(&mut self, area: Rect, dt: u32) -> (rows: Vec<String>)
        ensures
            exists|samples: Seq<usize>|
                {
                    &&& samples.len() == old(self)@.needed(area, dt)
                    &&& snow_cells(samples)
                    &&& final(self)@ == old(self)@.updated(area, dt, samples)
                },
            final(self)@.well_formed(),
            rows.deep_view() == snow_glyphs(final(self)@.grid),
    {
        let n = self.draws_needed(area, dt);
        let mut samples: Vec<usize> = Vec::new();
        let mut i: usize = 0;
        while i < n
            invariant
                i <= n,
                samples.len() == i,
                snow_cells(samples@),
            decreases n - i,
        {
            samples.push(self.sample());
            i += 1;
        }
        let rows = self.update_with(area, dt, &samples);
        assert(samples@.len() == old(self)@.needed(area, dt) && snow_cells(samples@) && self@
            == old(self)@.updated(area, dt, samples@));
        rows
    }

    /// The part of `area` above the ground.
    pub fn get_empty_area(&self, area: Rect) -> (sky: Rect)
        ensures
            sky == (Rect {
                height: if area.height >= GROUND_HEIGHT {
                    (area.height - GROUND_HEIGHT) as u16
                } else {
                    0
                },
                ..area
            }),
    {
        let sky_height: u16 = if area.height >= GROUND_HEIGHT {
            area.height - GROUND_HEIGHT
        } else {
            0
        };
        Rect { x: area.x, y: area.y, width: area.width, height: sky_height }
    }
}

/// The drawing of the background.
#[derive(Clone, Copy, Debug, Default, PartialEq, Eq)]
pub struct Background;

impl Background {
    /// The drawing of the background.
    pub fn new() -> (b: Background) {
        Background
    }
}

/// The lines of `text` that are not empty, and their number.
pub fn filter_text(text: &str) -> (r: (Vec<String>, u16))
    ensures
        r.0.deep_view() == crate::text::text_rows(text@),
        r.1 == crate::components::multiline::cell(r.0.len() as int),
{
    let lines = split_rows(text);
    let num_lines: u16 = if lines.len() > 0xffff { 0xffff } else { lines.len() as u16 };
    (lines, num_lines)
}

} // verus!
