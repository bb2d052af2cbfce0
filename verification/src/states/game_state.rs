use vstd::prelude::*;

use std::collections::HashSet;

use crate::config::game_config::GameConfig;
use crate::error::StateError;
use crate::state::{
    blocks_unhandled, EventResult, InputEvent, Key, MouseButton, State, UpdateResult,
};

verus! {

broadcast use vstd::std_specs::hash::group_hash_axioms, vstd::seq_lib::lemma_seq_contains_after_push;

/// The state of one square: still closed (with or without a flag), or open
/// and showing how many of its neighbors hold mines.
#[derive(Clone, Copy, Debug, PartialEq, Eq, Structural)]
pub enum SquareState {
    Closed(bool),
    Open(u8),
}

/// Grid width, in squares.
pub open spec fn grid_width(cfg: GameConfig) -> int {
    cfg.game_size.0 as int
}

/// Grid height, in squares.
pub open spec fn grid_height(cfg: GameConfig) -> int {
    cfg.game_size.1 as int
}

/// How many squares the grid holds.
pub open spec fn grid_area(cfg: GameConfig) -> int {
    grid_width(cfg) * grid_height(cfg)
}

/// 1 when the square at column `x`, row `y` holds a mine, 0 otherwise;
/// positions outside the grid hold none.
pub open spec fn mine_at(cfg: GameConfig, mines: Set<usize>, x: int, y: int) -> int {
    if 0 <= x < grid_width(cfg) && 0 <= y < grid_height(cfg) && mines.contains(
        (x + y * grid_width(cfg)) as usize,
    ) {
        1
    } else {
        0
    }
}

/// How many of the eight squares around square `i` hold mines.
pub open spec fn neighbor_mine_count(cfg: GameConfig, mines: Set<usize>, i: int) -> int {
    let x = i % grid_width(cfg);
    let y = i / grid_width(cfg);
    mine_at(cfg, mines, x - 1, y - 1) + mine_at(cfg, mines, x - 1, y) + mine_at(
        cfg,
        mines,
        x - 1,
        y + 1,
    ) + mine_at(cfg, mines, x, y - 1) + mine_at(cfg, mines, x, y + 1) + mine_at(
        cfg,
        mines,
        x + 1,
        y - 1,
    ) + mine_at(cfg, mines, x + 1, y) + mine_at(cfg, mines, x + 1, y + 1)
}

/// Whether square `n` is one of the up to eight squares around square `i`.
pub open spec fn is_neighbor(cfg: GameConfig, i: int, n: int) -> bool {
    let w = grid_width(cfg);
    let x = i % w;
    let y = i / w;
    let nx = n % w;
    let ny = n / w;
    &&& 0 <= n < grid_area(cfg)
    &&& (nx == x - 1 || nx == x || nx == x + 1)
    &&& (ny == y - 1 || ny == y || ny == y + 1)
    &&& !(nx == x && ny == y)
}

/// The square of the grid under the pixel position `(x, y)`, if any.
pub open spec fn cell_under(cfg: GameConfig, x: int, y: int) -> Option<usize> {
    let sq = cfg.square_size as int;
    let cx = x / sq;
    let cy = y / sq;
    if x >= 0 && y >= 0 && cx < grid_width(cfg) && cy < grid_height(cfg) {
        Some((cx + cy * grid_width(cfg)) as usize)
    } else {
        None
    }
}

/// A freshly generated mine layout: exactly `n` mines, all on the grid,
/// none on the graced square that was clicked first.
pub open spec fn generated_mines(mines: Set<usize>, n: int, graced: int, area: int) -> bool {
    &&& mines.finite()
    &&& mines.len() == n
    &&& !mines.contains(graced as usize)
    &&& forall|m: usize| mines.contains(m) ==> (m as int) < area
}

/// How many squares of the grid are still closed.
pub open spec fn closed_count(grid: Seq<SquareState>) -> nat
    decreases grid.len(),
{
    if grid.len() == 0 {
        0
    } else {
        (if grid[0] is Closed {
            1nat
        } else {
            0nat
        }) + closed_count(grid.skip(1))
    }
}

/// Squares only ever open: wherever the two grids differ, a closed square
/// became an open one.
pub open spec fn grid_mono(g1: Seq<SquareState>, g2: Seq<SquareState>) -> bool {
    &&& g2.len() == g1.len()
    &&& forall|j: int|
        0 <= j < g1.len() && g1[j] != g2[j] ==> g1[j] is Closed && (#[trigger] g2[j]) is Open
}

/// The ranking used to show that the recursive opening terminates: opening
/// a closed square shrinks the number of closed squares.
pub open spec fn open_rank(grid: Seq<SquareState>, i: int) -> int {
    if grid[i] is Closed {
        0
    } else {
        1
    }
}

/// What opening square `index` does to the mines: places them on the first
/// opening of the game (sparing the clicked square), leaves them alone
/// afterwards.
pub open spec fn mines_after_open(pre: GameState, post: GameState, index: int) -> bool {
    if pre.mines@ == Set::<usize>::empty() && pre.game_config.number_of_mines > 0 {
        generated_mines(
            post.mines@,
            pre.game_config.number_of_mines as int,
            index,
            grid_area(pre.game_config),
        )
    } else {
        post.mines@ == pre.mines@
    }
}

/// What opening square `index` does to the grid: the clicked square shows
/// its neighbor-mine count, every other square either keeps its value or
/// goes from closed to open with its correct count, and a square opened at
/// count zero has had all of its neighbors opened too (the flood fill).
pub open spec fn grid_after_open(pre: GameState, post: GameState, index: int) -> bool {
    let cfg = pre.game_config;
    &&& post.grid@.len() == pre.grid@.len()
    &&& forall|j: int|
        0 <= j < pre.grid@.len() && j != index && pre.grid@[j] is Open ==> #[trigger] post.grid@[j]
            == pre.grid@[j]
    &&& forall|j: int|
        0 <= j < pre.grid@.len() && j != index && #[trigger] post.grid@[j] != pre.grid@[j]
            ==> pre.grid@[j] is Closed && post.grid@[j] == SquareState::Open(
            neighbor_mine_count(cfg, post.mines@, j) as u8,
        )
    &&& post.grid@[index] == SquareState::Open(
        neighbor_mine_count(cfg, post.mines@, index) as u8,
    )
    &&& forall|j: int|
        0 <= j < pre.grid@.len() && pre.grid@[j] is Closed && #[trigger] post.grid@[j]
            == SquareState::Open(0) ==> forall|n: int|
            #[trigger] is_neighbor(cfg, j, n) ==> post.grid@[n] is Open
}

/// Everything opening square `index` does, apart from the mouse fields.
pub open spec fn open_effect(pre: GameState, post: GameState, index: int) -> bool {
    &&& post.game_config == pre.game_config
    &&& mines_after_open(pre, post, index)
    &&& grid_after_open(pre, post, index)
}

/// A mouse release that only ends the press, changing nothing else.
pub open spec fn press_cleared(pre: GameState, post: GameState) -> bool {
    post == (GameState { mouse_press: None, ..pre })
}

/// A right click on a closed square toggles its flag; the press ends.
pub open spec fn toggle_and_clear(pre: GameState, post: GameState, pi: int) -> bool {
    &&& post.game_config == pre.game_config
    &&& post.mines@ == pre.mines@
    &&& post.mouse_index == pre.mouse_index
    &&& post.mouse_press is None
    &&& post.grid@ == (match pre.grid@[pi] {
        SquareState::Closed(f) => pre.grid@.update(pi, SquareState::Closed(!f)),
        SquareState::Open(_) => pre.grid@,
    })
}

/// A left click opens the square; the press ends.
pub open spec fn open_and_clear(pre: GameState, post: GameState, pi: int) -> bool {
    &&& open_effect(pre, post, pi)
    &&& post.mouse_index == pre.mouse_index
    &&& post.mouse_press is None
}

/// What releasing `button` does: when the release lands on the same square
/// the press started on, a left click opens it and a right click toggles
/// its flag; in every case the press ends.
pub open spec fn mouse_up_rel(pre: GameState, post: GameState, button: MouseButton) -> bool {
    match (pre.mouse_press, pre.mouse_index) {
        (Some(press), Some(mi)) => {
            if press.0 == button && mi == press.1 && (press.1 as int) < pre.grid@.len() {
                match button {
                    MouseButton::Left => open_and_clear(pre, post, press.1 as int),
                    MouseButton::Right => toggle_and_clear(pre, post, press.1 as int),
                    MouseButton::Middle => press_cleared(pre, post),
                    MouseButton::Other(_) => press_cleared(pre, post),
                }
            } else {
                press_cleared(pre, post)
            }
        },
        _ => press_cleared(pre, post),
    }
}

/// The playing state: the grid of squares, the mines (placed on the first
/// click), and where the mouse hovers and last pressed.
///
/// Rendering the squares is the host's concern; everything it needs is
/// readable here.
#[derive(Debug)]
pub struct GameState {
    pub game_config: GameConfig,
    pub grid: Vec<SquareState>,
    pub mines: HashSet<usize>,
    /// The square the mouse is over, if any.
    pub mouse_index: Option<usize>,
    /// The button and square of the press currently held, if any.
    pub mouse_press: Option<(MouseButton, usize)>,
}

impl GameState {
    /// A state the game logic can run on: a valid configuration and a grid
    /// of exactly the configured size.
    pub open spec fn wf(&self) -> bool {
        &&& self.game_config.wf()
        &&& self.grid@.len() == grid_area(self.game_config)
    }

    /// Check [`GameState::wf`] at run time.
    pub fn is_well_formed(&self) -> (r: bool)
        ensures
            r == self.wf(),
    {
        if !self.game_config.is_valid() {
            return false;
        }
        self.grid.len() == self.game_config.game_size.0 * self.game_config.game_size.1
    }

    /// Create a fresh game: all squares closed and unflagged, no mines
    /// placed yet (they appear on the first opened square), no mouse state.
    /// A configuration the game cannot run with is rejected.
    pub fn new(game_config: GameConfig) -> (r: Result<GameState, StateError>)
        ensures
            match r {
                Ok(g) => {
                    &&& game_config.wf()
                    &&& g.wf()
                    &&& g.game_config == game_config
                    &&& forall|j: int|
                        0 <= j < g.grid@.len() ==> #[trigger] g.grid@[j] == SquareState::Closed(
                            false,
                        )
                    &&& g.mines@ == Set::<usize>::empty()
                    &&& g.mouse_index is None
                    &&& g.mouse_press is None
                },
                Err(e) => !game_config.wf() && e == StateError::Config,
            },
    {
        if !game_config.is_valid() {
            return Err(StateError::Config);
        }
        let squares = game_config.game_size.0 * game_config.game_size.1;
        let grid: Vec<SquareState> = vec![SquareState::Closed(false); squares];
        let mines: HashSet<usize> = HashSet::new();
        Ok(GameState { game_config, grid, mines, mouse_index: None, mouse_press: None })
    }

    /// Read one square of the grid.
    pub fn cell(&self, index: usize) -> (r: SquareState)
        requires
            index < self.grid@.len(),
        ensures
            r == self.grid@[index as int],
    {
        self.grid[index]
    }

    /// The two-dimensional position of a square: column `index % width`,
    /// row `index / width`.
    pub fn index_to_point(&self, index: usize) -> (r: (usize, usize))
        requires
            self.wf(),
            index < self.grid@.len(),
        ensures
            r.0 as int == (index as int) % grid_width(self.game_config),
            r.1 as int == (index as int) / grid_width(self.game_config),
            r.0 < self.game_config.game_size.0,
            r.1 < self.game_config.game_size.1,
    {
        let w = self.game_config.game_size.0;
        let q = index / w;
        let m = index % w;
        proof {
            lemma_index_coords(
                grid_width(self.game_config),
                grid_height(self.game_config),
                index as int,
            );
        }
        (m, q)
    }

    /// The square at column `point.0`, row `point.1`: index
    /// `x + y * width`.
    pub fn point_to_index(&self, point: (usize, usize)) -> (r: usize)
        requires
            self.wf(),
            point.0 < self.game_config.game_size.0,
            point.1 < self.game_config.game_size.1,
        ensures
            r as int == point.0 + point.1 * grid_width(self.game_config),
            r < self.grid@.len(),
    {
        proof {
            lemma_cell_index(
                grid_width(self.game_config),
                grid_height(self.game_config),
                point.0 as int,
                point.1 as int,
            );
        }
        point.0 + point.1 * self.game_config.game_size.0
    }

    /// Whether the square at column `x`, row `y` holds a mine; positions
    /// outside the grid hold none.
    fn mine_present(&self, x: usize, y: usize) -> (r: bool)
        requires
            self.wf(),
        ensures
            r == (mine_at(self.game_config, self.mines@, x as int, y as int) == 1),
    {
        let w = self.game_config.game_size.0;
        let h = self.game_config.game_size.1;
        if x < w && y < h {
            proof {
                lemma_cell_index(
                    grid_width(self.game_config),
                    grid_height(self.game_config),
                    x as int,
                    y as int,
                );
            }
            self.mines.contains(&(x + y * w))
        } else {
            false
        }
    }

    /// The indices of all squares bordering square `index`: every square
    /// whose column and row are within one of it, except itself and
    /// anything off the grid.
    fn get_neighbors(&self, index: usize) -> (r: Vec<usize>)
        requires
            self.wf(),
            index < self.grid@.len(),
        ensures
            forall|t: int|
                0 <= t < r@.len() ==> is_neighbor(self.game_config, index as int, #[trigger] r@[t] as int),
            forall|n: int|
                #[trigger] is_neighbor(self.game_config, index as int, n) ==> r@.contains(
                    n as usize,
                ),
    {
        let ghost w = grid_width(self.game_config);
        let ghost h = grid_height(self.game_config);
        let (x, y) = self.index_to_point(index);
        let width = self.game_config.game_size.0;
        let height = self.game_config.game_size.1;
        let mut r: Vec<usize> = Vec::new();
        if x >= 1 && y >= 1 {
            proof {
                lemma_cell_index(w, h, x as int - 1, y as int - 1);
            }
            r.push((x - 1) + (y - 1) * width);
        }
        if x >= 1 {
            proof {
                lemma_cell_index(w, h, x as int - 1, y as int);
            }
            r.push((x - 1) + y * width);
        }
        if x >= 1 && y + 1 < height {
            proof {
                lemma_cell_index(w, h, x as int - 1, y as int + 1);
            }
            r.push((x - 1) + (y + 1) * width);
        }
        if y >= 1 {
            proof {
                lemma_cell_index(w, h, x as int, y as int - 1);
            }
            r.push(x + (y - 1) * width);
        }
        if y + 1 < height {
            proof {
                lemma_cell_index(w, h, x as int, y as int + 1);
            }
            r.push(x + (y + 1) * width);
        }
        if x + 1 < width && y >= 1 {
            proof {
                lemma_cell_index(w, h, x as int + 1, y as int - 1);
            }
            r.push((x + 1) + (y - 1) * width);
        }
        if x + 1 < width {
            proof {
                lemma_cell_index(w, h, x as int + 1, y as int);
            }
            r.push((x + 1) + y * width);
        }
        if x + 1 < width && y + 1 < height {
            proof {
                lemma_cell_index(w, h, x as int + 1, y as int + 1);
            }
            r.push((x + 1) + (y + 1) * width);
        }
        proof {
            let cfg = self.game_config;
            let i = index as int;
            let xi = x as int;
            let yi = y as int;
            assert forall|n: int| #[trigger] is_neighbor(cfg, i, n) implies r@.contains(n as usize) by {
                lemma_index_coords(w, h, n);
                let nx = n % w;
                let ny = n / w;
                assert(n == nx + ny * w);
                if nx == xi - 1 && ny == yi - 1 {
                    assert((xi - 1) + (yi - 1) * w == n);
                } else if nx == xi - 1 && ny == yi {
                    assert((xi - 1) + yi * w == n);
                } else if nx == xi - 1 && ny == yi + 1 {
                    assert((xi - 1) + (yi + 1) * w == n);
                } else if nx == xi && ny == yi - 1 {
                    assert(xi + (yi - 1) * w == n);
                } else if nx == xi && ny == yi + 1 {
                    assert(xi + (yi + 1) * w == n);
                } else if nx == xi + 1 && ny == yi - 1 {
                    assert((xi + 1) + (yi - 1) * w == n);
                } else if nx == xi + 1 && ny == yi {
                    assert((xi + 1) + yi * w == n);
                } else {
                    assert(nx == xi + 1 && ny == yi + 1);
                    assert((xi + 1) + (yi + 1) * w == n);
                }
                assert(r@.contains(n as usize));
            }
        }
        r
    }

    /// How many of the squares around square `index` hold mines.
    fn count_neighbors(&self, index: usize) -> (r: u8)
        requires
            self.wf(),
            index < self.grid@.len(),
        ensures
            r as int == neighbor_mine_count(self.game_config, self.mines@, index as int),
    {
        let (x, y) = self.index_to_point(index);
        let mut count: u8 = 0;
        if x >= 1 && y >= 1 && self.mine_present(x - 1, y - 1) {
            count = count + 1;
        }
        if x >= 1 && self.mine_present(x - 1, y) {
            count = count + 1;
        }
        if x >= 1 && self.mine_present(x - 1, y + 1) {
            count = count + 1;
        }
        if y >= 1 && self.mine_present(x, y - 1) {
            count = count + 1;
        }
        if self.mine_present(x, y + 1) {
            count = count + 1;
        }
        if y >= 1 && self.mine_present(x + 1, y - 1) {
            count = count + 1;
        }
        if self.mine_present(x + 1, y) {
            count = count + 1;
        }
        if self.mine_present(x + 1, y + 1) {
            count = count + 1;
        }
        count
    }

    /// How square `index` should be rendered this frame.
    pub fn square_visual(&self, index: usize) -> (r: SquareVisual)
        requires
            index < self.grid@.len(),
        ensures
            r == square_visual_spec(*self, index as int),
    {
        match self.grid[index] {
            SquareState::Closed(flagged) => {
                let selected = match self.mouse_press {
                    Some((_, pi)) => pi == index,
                    None => match self.mouse_index {
                        Some(mi) => mi == index,
                        None => false,
                    },
                };
                SquareVisual::Closed { selected, flagged }
            },
            SquareState::Open(c) => {
                if self.mines.contains(&index) {
                    SquareVisual::Mine
                } else if c > 0 {
                    SquareVisual::Number(c)
                } else {
                    SquareVisual::Blank
                }
            },
        }
    }

    /// Place `number_of_mines` mines on distinct squares drawn at random,
    /// never on the graced square the player just clicked.
    ///
    /// Unlike a rejection loop, selecting from a pool of the remaining
    /// candidates finishes in a bounded number of draws.
    fn generate_mines(&mut self, number_of_mines: usize, graced_index: usize)
        requires
            old(self).wf(),
            number_of_mines < old(self).grid@.len(),
            graced_index < old(self).grid@.len(),
        ensures
            final(self).wf(),
            final(self).game_config == old(self).game_config,
            final(self).grid@ == old(self).grid@,
            final(self).mouse_index == old(self).mouse_index,
            final(self).mouse_press == old(self).mouse_press,
            generated_mines(
                final(self).mines@,
                number_of_mines as int,
                graced_index as int,
                grid_area(old(self).game_config),
            ),
            number_of_mines == 0 ==> final(self).mines@ == Set::<usize>::empty(),
    {
        let len = self.grid.len();
        let mut pool: Vec<usize> = Vec::new();
        let mut i: usize = 0;
        while i < len
            invariant
                i <= len,
                graced_index < len,
                pool@.len() == if i <= graced_index {
                    i as int
                } else {
                    i - 1
                },
                forall|t: int| 0 <= t < pool@.len() ==> #[trigger] pool@[t] < i,
                forall|t: int| 0 <= t < pool@.len() ==> #[trigger] pool@[t] != graced_index,
                forall|a: int, b: int|
                    0 <= a < b < pool@.len() ==> #[trigger] pool@[a] != #[trigger] pool@[b],
            decreases len - i,
        {
            if i != graced_index {
                pool.push(i);
            }
            i = i + 1;
        }
        let mut result: HashSet<usize> = HashSet::new();
        let mut k: usize = 0;
        while k < number_of_mines
            invariant
                k <= number_of_mines,
                number_of_mines < len,
                result@.finite(),
                result@.len() == k,
                pool@.len() == len - 1 - k,
                forall|t: int| 0 <= t < pool@.len() ==> #[trigger] pool@[t] < len,
                forall|t: int| 0 <= t < pool@.len() ==> #[trigger] pool@[t] != graced_index,
                forall|a: int, b: int|
                    0 <= a < b < pool@.len() ==> #[trigger] pool@[a] != #[trigger] pool@[b],
                forall|t: int| 0 <= t < pool@.len() ==> !result@.contains(#[trigger] pool@[t]),
                forall|m: usize|
                    #[trigger] result@.contains(m) ==> m < len && m != graced_index,
            decreases number_of_mines - k,
        {
            let j = random_below(pool.len());
            let chosen = pool.swap_remove(j);
            result.insert(chosen);
            k = k + 1;
        }
        self.mines = result;
    }

    /// Open square `index`: place the mines first if none are placed yet
    /// (sparing this square), then show the square's neighbor-mine count,
    /// and when that count is zero open all its neighbors the same way —
    /// the usual minesweeper flood fill.
    fn open(&mut self, index: usize)
        requires
            old(self).wf(),
            index < old(self).grid@.len(),
        ensures
            final(self).wf(),
            open_effect(*old(self), *final(self), index as int),
            final(self).mouse_index == old(self).mouse_index,
            final(self).mouse_press == old(self).mouse_press,
            closed_count(final(self).grid@) + 1 <= closed_count(old(self).grid@) + open_rank(
                old(self).grid@,
                index as int,
            ),
        decreases closed_count(old(self).grid@), open_rank(old(self).grid@, index as int),
    {
        if self.mines.is_empty() {
            let n = self.game_config.number_of_mines;
            self.generate_mines(n, index);
        }
        let count = self.count_neighbors(index);
        proof {
            assert(0 <= neighbor_mine_count(self.game_config, self.mines@, index as int) <= 8);
        }
        let ghost before_write: Seq<SquareState> = self.grid@;
        let slot = &mut self.grid[index];
        *slot = SquareState::Open(count);
        proof {
            lemma_closed_count_update(before_write, index as int, SquareState::Open(count));
        }
        if count > 0 {
            return ;
        }
        let neighbors = self.get_neighbors(index);
        let mut k: usize = 0;
        while k < neighbors.len()
            invariant
                k <= neighbors@.len(),
                old(self).wf(),
                index < old(self).grid@.len(),
                self.wf(),
                self.game_config == old(self).game_config,
                self.mouse_index == old(self).mouse_index,
                self.mouse_press == old(self).mouse_press,
                self.grid@.len() == old(self).grid@.len(),
                mines_after_open(*old(self), *self, index as int),
                self.grid@[index as int] == SquareState::Open(
                    neighbor_mine_count(self.game_config, self.mines@, index as int) as u8,
                ),
                neighbor_mine_count(self.game_config, self.mines@, index as int) == 0,
                forall|j: int|
                    0 <= j < old(self).grid@.len() && j != index && old(self).grid@[j] is Open
                        ==> #[trigger] self.grid@[j] == old(self).grid@[j],
                forall|j: int|
                    0 <= j < old(self).grid@.len() && j != index && #[trigger] self.grid@[j] != old(
                        self,
                    ).grid@[j] ==> old(self).grid@[j] is Closed && self.grid@[j]
                        == SquareState::Open(
                        neighbor_mine_count(self.game_config, self.mines@, j) as u8,
                    ),
                forall|j: int|
                    0 <= j < old(self).grid@.len() && j != index && old(self).grid@[j] is Closed
                        && #[trigger] self.grid@[j] == SquareState::Open(0) ==> (forall|n: int|
                        #[trigger] is_neighbor(self.game_config, j, n) ==> self.grid@[n] is Open),
                forall|t: int|
                    0 <= t < k ==> self.grid@[#[trigger] neighbors@[t] as int] is Open,
                forall|t: int|
                    0 <= t < neighbors@.len() ==> is_neighbor(
                        self.game_config,
                        index as int,
                        #[trigger] neighbors@[t] as int,
                    ),
                forall|n: int|
                    #[trigger] is_neighbor(self.game_config, index as int, n)
                        ==> neighbors@.contains(n as usize),
                closed_count(self.grid@) + 1 <= closed_count(old(self).grid@) + open_rank(
                    old(self).grid@,
                    index as int,
                ),
            decreases neighbors@.len() - k,
        {
            let n = neighbors[k];
            proof {
                assert(is_neighbor(self.game_config, index as int, n as int));
            }
            let cell = self.grid[n];
            if let SquareState::Closed(_) = cell {
                let ghost before_call: GameState = *self;
                self.open(n);
                proof {
                    assert(grid_mono(before_call.grid@, self.grid@)) by {
                        assert forall|j: int|
                            0 <= j < before_call.grid@.len() && before_call.grid@[j]
                                != self.grid@[j] implies before_call.grid@[j] is Closed && (
                        #[trigger] self.grid@[j]) is Open by {
                            if j != n as int {
                                assert(self.grid@[j] != before_call.grid@[j]);
                            }
                        }
                    }
                    lemma_closed_count_mono(before_call.grid@, self.grid@);
                }
            }
            k = k + 1;
        }
        proof {
            assert forall|j: int|
                0 <= j < old(self).grid@.len() && old(self).grid@[j] is Closed
                    && #[trigger] self.grid@[j] == SquareState::Open(0) implies (forall|n: int|
                #[trigger] is_neighbor(self.game_config, j, n) ==> self.grid@[n] is Open) by {
                if j == index as int {
                    assert forall|n: int|
                        #[trigger] is_neighbor(self.game_config, j, n) implies self.grid@[n]
                        is Open by {
                        assert(neighbors@.contains(n as usize));
                        let t = choose|t: int|
                            0 <= t < neighbors@.len() && neighbors@[t] == n as usize;
                        assert(self.grid@[neighbors@[t] as int] is Open);
                    }
                }
            }
        }
    }
}

/// What one square should look like this frame: the compute half of
/// drawing the grid, for the host to turn into meshes and sprites.
#[derive(Clone, Copy, Debug, PartialEq, Eq, Structural)]
pub enum SquareVisual {
    /// A closed square, highlighted while it is pressed or hovered, with
    /// its flag when one is set.
    Closed { selected: bool, flagged: bool },
    /// An open square sitting on a mine.
    Mine,
    /// An open square with mines next to it: show the count.
    Number(u8),
    /// An open square with no mine nearby.
    Blank,
}

/// Which square counts as selected: the one the held press started on
/// while a button is down, otherwise the one under the mouse.
pub open spec fn selected_square(s: GameState) -> Option<usize> {
    match s.mouse_press {
        Some(press) => Some(press.1),
        None => s.mouse_index,
    }
}

/// The visual for square `i`, as the original draw pass chose it.
pub open spec fn square_visual_spec(s: GameState, i: int) -> SquareVisual {
    match s.grid@[i] {
        SquareState::Closed(flagged) => SquareVisual::Closed {
            selected: selected_square(s) == Some(i as usize),
            flagged,
        },
        SquareState::Open(c) => if s.mines@.contains(i as usize) {
            SquareVisual::Mine
        } else if c > 0 {
            SquareVisual::Number(c)
        } else {
            SquareVisual::Blank
        },
    }
}

/// Relies on `rand::Rng::gen_range` over the thread-local generator: the
/// drawn value lies below `bound`; nothing is assumed about which one
/// comes back.
#[verifier::external_body]
fn random_below(bound: usize) -> (r: usize)
    requires
        1 <= bound,
    ensures
        r < bound,
{
    rand::Rng::gen_range(&mut rand::thread_rng(), 0..bound)
}

/// Column and row of a grid cell index: their bounds and how they recombine.
proof fn lemma_index_coords(w: int, h: int, i: int)
    requires
        0 < w,
        0 < h,
        0 <= i < w * h,
    ensures
        0 <= i % w < w,
        0 <= i / w < h,
        i == (i % w) + (i / w) * w,
{
    vstd::arithmetic::div_mod::lemma_fundamental_div_mod(i, w);
    assert(w * (i / w) == (i / w) * w) by (nonlinear_arith);
    assert(0 <= i % w < w) by (nonlinear_arith)
        requires
            0 < w,
            0 <= i,
    ;
    assert(i / w < h) by (nonlinear_arith)
        requires
            0 < w,
            0 < h,
            i < w * h,
            i == w * (i / w) + i % w,
            0 <= i % w,
    ;
    assert(0 <= i / w) by (nonlinear_arith)
        requires
            0 < w,
            0 <= i,
            i == w * (i / w) + i % w,
            i % w < w,
    ;
}

/// A column and row inside the grid name a cell index inside the grid, and
/// the index decomposes back into them.
proof fn lemma_cell_index(w: int, h: int, nx: int, ny: int)
    requires
        0 < w,
        0 < h,
        0 <= nx < w,
        0 <= ny < h,
    ensures
        0 <= nx + ny * w < w * h,
        (nx + ny * w) % w == nx,
        (nx + ny * w) / w == ny,
{
    assert(0 <= nx + ny * w < w * h) by (nonlinear_arith)
        requires
            0 < w,
            0 < h,
            0 <= nx < w,
            0 <= ny < h,
    ;
    vstd::arithmetic::div_mod::lemma_fundamental_div_mod_converse_mod(nx + ny * w, w, ny, nx);
    vstd::arithmetic::div_mod::lemma_fundamental_div_mod_converse_div(nx + ny * w, w, ny, nx);
}

/// Updating one square changes the closed count exactly by the difference
/// the two values make.
proof fn lemma_closed_count_update(g: Seq<SquareState>, j: int, v: SquareState)
    requires
        0 <= j < g.len(),
    ensures
        closed_count(g.update(j, v)) == closed_count(g) - (if g[j] is Closed {
            1int
        } else {
            0int
        }) + (if v is Closed {
            1int
        } else {
            0int
        }),
    decreases g.len(),
{
    if j == 0 {
        assert(g.update(0, v).skip(1) =~= g.skip(1));
    } else {
        lemma_closed_count_update(g.skip(1), j - 1, v);
        assert(g.update(j, v).skip(1) =~= g.skip(1).update(j - 1, v));
    }
}

/// Opening squares never increases the closed count.
proof fn lemma_closed_count_mono(g1: Seq<SquareState>, g2: Seq<SquareState>)
    requires
        grid_mono(g1, g2),
    ensures
        closed_count(g2) <= closed_count(g1),
    decreases g1.len(),
{
    if g1.len() > 0 {
        assert(grid_mono(g1.skip(1), g2.skip(1))) by {
            assert forall|j: int|
                0 <= j < g1.skip(1).len() && g1.skip(1)[j] != g2.skip(1)[j] implies g1.skip(1)[j]
                is Closed && (#[trigger] g2.skip(1)[j]) is Open by {
                assert(g1.skip(1)[j] == g1[j + 1]);
                assert(g2.skip(1)[j] == g2[j + 1]);
            }
        }
        lemma_closed_count_mono(g1.skip(1), g2.skip(1));
    }
}

impl State for GameState {
    /// The game is an opaque layer: nothing beneath it is drawn.
    open spec fn lets_draw_through(&self) -> bool {
        false
    }

    /// A gameplay tick changes nothing and blocks the states below: the
    /// game is always the final authority over its frame.
    open spec fn update_rel(&self, post: Self, r: Result<UpdateResult<Self>, StateError>) -> bool {
        post == *self && r == Ok::<UpdateResult<Self>, StateError>(UpdateResult::Block)
    }

    open spec fn draw_rel(&self, post: Self, outcome: Option<StateError>) -> bool {
        post == *self && outcome is None
    }

    open spec fn event_rel(
        &self,
        ev: InputEvent,
        post: Self,
        r: Result<EventResult, StateError>,
    ) -> bool {
        match ev {
            InputEvent::MouseMotion { x, y, .. } => r == Ok::<EventResult, StateError>(
                EventResult::Block,
            ) && post == (GameState {
                mouse_index: if self.wf() {
                    cell_under(self.game_config, x as int, y as int)
                } else {
                    self.mouse_index
                },
                ..*self
            }),
            InputEvent::MouseButtonDown { button, .. } => r == Ok::<EventResult, StateError>(
                EventResult::Block,
            ) && post == (GameState {
                mouse_press: match self.mouse_index {
                    Some(i) => Some((button, i)),
                    None => self.mouse_press,
                },
                ..*self
            }),
            InputEvent::MouseButtonUp { button, .. } => r == Ok::<EventResult, StateError>(
                EventResult::Block,
            ) && (if self.wf() {
                mouse_up_rel(*self, post, button)
            } else {
                post == *self
            }),
            InputEvent::KeyUp { .. } => blocks_unhandled(*self, post, r),
        }
    }

    fn update(&mut self) -> (r: Result<UpdateResult<Self>, StateError>) {
        Ok(UpdateResult::Block)
    }

    /// The squares are rendered by the host, reading the grid through
    /// [`GameState::cell`].
    fn draw(&mut self) -> (r: Result<(), StateError>) {
        Ok(())
    }

    fn let_through_draw(&self) -> (r: bool) {
        false
    }

    /// Track which square the mouse is over.
    fn mouse_motion_event(&mut self, x: i32, y: i32, dx: i32, dy: i32) -> (r: Result<
        EventResult,
        StateError,
    >) {
        if !self.is_well_formed() {
            return Ok(EventResult::Block);
        }
        let sq = self.game_config.square_size as usize;
        let w = self.game_config.game_size.0;
        let h = self.game_config.game_size.1;
        if x >= 0 && y >= 0 {
            let ux = (x as usize) / sq;
            let uy = (y as usize) / sq;
            if ux < w && uy < h {
                proof {
                    lemma_cell_index(
                        grid_width(self.game_config),
                        grid_height(self.game_config),
                        ux as int,
                        uy as int,
                    );
                }
                self.mouse_index = Some(ux + uy * w);
            } else {
                self.mouse_index = None;
            }
        } else {
            self.mouse_index = None;
        }
        Ok(EventResult::Block)
    }

    /// Remember which button went down and which square it went down on.
    fn mouse_button_down_event(&mut self, button: MouseButton, _x: i32, _y: i32) -> (r: Result<
        EventResult,
        StateError,
    >) {
        if let Some(index) = self.mouse_index {
            self.mouse_press = Some((button, index));
        }
        Ok(EventResult::Block)
    }

    /// End the press: released on the same square it went down on, a left
    /// button opens the square and a right button toggles its flag.
    fn mouse_button_up_event(&mut self, button: MouseButton, _x: i32, _y: i32) -> (r: Result<
        EventResult,
        StateError,
    >) {
        if !self.is_well_formed() {
            return Ok(EventResult::Block);
        }
        if let (Some((press_button, press_index)), Some(mouse_index)) = (
            self.mouse_press,
            self.mouse_index,
        ) {
            if button == press_button && mouse_index == press_index && press_index
                < self.grid.len() {
                match button {
                    MouseButton::Left => {
                        self.open(press_index);
                    },
                    MouseButton::Right => {
                        let cell = self.grid[press_index];
                        if let SquareState::Closed(flagged) = cell {
                            let slot = &mut self.grid[press_index];
                            *slot = SquareState::Closed(!flagged);
                        }
                    },
                    MouseButton::Middle => {},
                    MouseButton::Other(_) => {},
                }
            }
        }
        self.mouse_press = None;
        Ok(EventResult::Block)
    }

    fn key_up_event(&mut self, _key: Key) -> (r: Result<EventResult, StateError>) {
        Ok(EventResult::Block)
    }
}

/// The gameplay state leaves key events unhandled, and an unhandled event
/// blocks without changing the state: input never leaks past the game.
pub proof fn lemma_game_key_events_unhandled(
    s: GameState,
    key: Key,
    post: GameState,
    r: Result<EventResult, StateError>,
)
    requires
        s.event_rel((InputEvent::KeyUp { key }), post, r),
    ensures
        post == s,
        r == Ok::<EventResult, StateError>(EventResult::Block),
{
}

} // verus!
