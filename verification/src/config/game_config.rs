use vstd::prelude::*;

verus! {

/// The colors used when the grid is rendered, as 8-bit RGB triples.
///
/// The core never interprets them; they ride along in the configuration so
/// the host can color the squares the way the configuration file asked.
#[derive(Clone, Copy, Debug, PartialEq, Eq)]
pub struct GameColors {
    pub square: (u8, u8, u8),
    pub selected_square: (u8, u8, u8),
    pub mine_square: (u8, u8, u8),
}

/// The main game configuration, loaded by the host from `config.ron`.
#[derive(Clone, Copy, Debug, PartialEq, Eq)]
pub struct GameConfig {
    /// Width and height of the playing grid, in squares.
    pub game_size: (usize, usize),
    /// How many mines are placed on the first opened square.
    pub number_of_mines: usize,
    /// Side length of one square, in pixels.
    pub square_size: u32,
    pub colors: GameColors,
}

impl GameConfig {
    /// A configuration the game can actually run with: a non-empty grid
    /// whose square count fits the machine, at least one free square left
    /// over after mine placement, and squares at least one pixel wide.
    pub open spec fn wf(&self) -> bool {
        &&& 0 < self.game_size.0
        &&& 0 < self.game_size.1
        &&& self.game_size.0 * self.game_size.1 <= usize::MAX
        &&& self.number_of_mines < self.game_size.0 * self.game_size.1
        &&& 0 < self.square_size
    }

    /// Check [`GameConfig::wf`] at run time.
    pub fn is_valid(&self) -> (r: bool)
        ensures
            r == self.wf(),
    {
        match self.game_size.0.checked_mul(self.game_size.1) {
            Some(squares) => {
                self.game_size.0 > 0 && self.game_size.1 > 0 && self.number_of_mines < squares
                    && self.square_size > 0
            },
            None => false,
        }
    }
}

} // verus!
