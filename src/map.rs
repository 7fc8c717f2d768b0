use vstd::prelude::*;

use crate::rng::range_i32;

verus! {

/// The named colours that tiles and entities are drawn in.
#[derive(Clone, Copy, Debug, PartialEq, Eq, Structural)]
pub enum Color {
    White,
    Grey,
    Yellow,
    Black,
    Red,
}

/// One terrain cell: how it is drawn and whether it can be walked on.
#[derive(Clone, Copy, Debug, PartialEq, Eq, Structural)]
pub struct Tile {
    pub fg: Color,
    pub bg: Color,
    pub ch: u16,
    pub walkable: bool,
}

pub open spec fn blank_tile_spec() -> Tile {
    Tile { fg: Color::White, bg: Color::Grey, ch: 32, walkable: true }
}

pub open spec fn default_wall_spec() -> Tile {
    Tile { fg: Color::White, bg: Color::Grey, ch: 35, walkable: false }
}

pub open spec fn gold_tile_spec() -> Tile {
    Tile { fg: Color::Yellow, bg: Color::Grey, ch: 35, walkable: false }
}

/// An open floor tile.
pub fn blank_tile() -> (t: Tile)
    ensures
        t == blank_tile_spec(),
{
    Tile { fg: Color::White, bg: Color::Grey, ch: ' ' as u16, walkable: true }
}

/// A solid wall tile.
pub fn default_wall() -> (t: Tile)
    ensures
        t == default_wall_spec(),
{
    Tile { fg: Color::White, bg: Color::Grey, ch: '#' as u16, walkable: false }
}

/// The static terrain: `rows` rows of `cols` tiles each.
pub struct TileMap {
    vec: Vec<Vec<Tile>>,
    rows: usize,
    cols: usize,
}

impl View for TileMap {
    type V = Seq<Seq<Tile>>;

    closed spec fn view(&self) -> Seq<Seq<Tile>> {
        Seq::new(self.vec@.len(), |i: int| self.vec@[i]@)
    }
}

/// A grid of the given shape: `rows` rows, each of `cols` entries.
pub open spec fn is_grid<T>(g: Seq<Seq<T>>, rows: int, cols: int) -> bool {
    &&& g.len() == rows
    &&& forall|i: int| 0 <= i < rows ==> #[trigger] g[i].len() == cols
}

/// The rectangle of `rows` by `cols` cells whose top-left corner is (`y`, `x`).
pub open spec fn in_rect(r: int, c: int, y: int, x: int, rows: int, cols: int) -> bool {
    y <= r < y + rows && x <= c < x + cols
}

impl TileMap {
    pub closed spec fn rows_spec(&self) -> int {
        self.rows as int
    }

    pub closed spec fn cols_spec(&self) -> int {
        self.cols as int
    }

    pub closed spec fn wf(&self) -> bool {
        &&& self.rows <= u32::MAX
        &&& self.cols <= u32::MAX
        &&& self.vec@.len() == self.rows
        &&& forall|i: int| 0 <= i < self.rows ==> #[trigger] self.vec@[i]@.len() == self.cols
    }

    pub proof fn lemma_wf_shape(&self)
        requires
            self.wf(),
        ensures
            is_grid(self@, self.rows_spec(), self.cols_spec()),
            self.rows_spec() <= u32::MAX,
            self.cols_spec() <= u32::MAX,
    {
    }

    /// A map of the given shape, walls everywhere.
    pub fn new(rows: usize, cols: usize) -> (m: Self)
        requires
            rows <= u32::MAX,
            cols <= u32::MAX,
        ensures
            m.wf(),
            m.rows_spec() == rows,
            m.cols_spec() == cols,
            forall|r: int, c: int|
                0 <= r < rows && 0 <= c < cols ==> #[trigger] m@[r][c] == default_wall_spec(),
    {
        let mut vec: Vec<Vec<Tile>> = Vec::new();
        let mut i: usize = 0;
        while i < rows
            invariant
                i <= rows,
                vec@.len() == i,
                forall|k: int| 0 <= k < i ==> #[trigger] vec@[k]@.len() == cols,
                forall|k: int, c: int|
                    0 <= k < i && 0 <= c < cols ==> #[trigger] vec@[k]@[c] == default_wall_spec(),
            decreases rows - i,
        {
            let mut row: Vec<Tile> = Vec::new();
            let mut j: usize = 0;
            while j < cols
                invariant
                    j <= cols,
                    row@.len() == j,
                    forall|c: int| 0 <= c < j ==> #[trigger] row@[c] == default_wall_spec(),
                decreases cols - j,
            {
                row.push(default_wall());
                j = j + 1;
            }
            vec.push(row);
            i = i + 1;
        }
        TileMap { vec, rows, cols }
    }

    pub fn rows(&self) -> (r: u32)
        requires
            self.wf(),
        ensures
            r == self.rows_spec(),
    {
        self.rows as u32
    }

    pub fn cols(&self) -> (r: u32)
        requires
            self.wf(),
        ensures
            r == self.cols_spec(),
    {
        self.cols as u32
    }

    /// The tile at row `r`, column `c`.
    pub fn at(&self, r: u32, c: u32) -> (t: &Tile)
        requires
            self.wf(),
            r < self.rows_spec(),
            c < self.cols_spec(),
        ensures
            *t == self@[r as int][c as int],
    {
        &self.vec[r as usize][c as usize]
    }

    /// Replaces the tile at row `y`, column `x`.
    pub fn set(&mut self, y: usize, x: usize, tile: Tile)
        requires
            old(self).wf(),
            y < old(self).rows_spec(),
            x < old(self).cols_spec(),
        ensures
            final(self).wf(),
            final(self).rows_spec() == old(self).rows_spec(),
            final(self).cols_spec() == old(self).cols_spec(),
            final(self)@ == old(self)@.update(y as int, old(self)@[y as int].update(x as int, tile)),
    {
        self.vec[y].set(x, tile);
        proof {
            assert(self@ =~= old(self)@.update(y as int, old(self)@[y as int].update(x as int, tile)));
        }
    }

    /// Whether (`y`, `x`) lies on the map.
    pub fn is_on(&self, y: i32, x: i32) -> (b: bool)
        requires
            self.wf(),
        ensures
            b == (0 <= y < self.rows_spec() && 0 <= x < self.cols_spec()),
    {
        if y < 0 || x < 0 {
            return false;
        }
        if y as usize >= self.rows || x as usize >= self.cols {
            return false;
        }
        true
    }
}

/// The map with every cell of the `rows` by `cols` rectangle at (`y`, `x`)
/// turned into open floor.
pub fn clear_room(map: TileMap, y: u32, x: u32, rows: u32, cols: u32) -> (m: TileMap)
    requires
        map.wf(),
        y + rows <= map.rows_spec(),
        x + cols <= map.cols_spec(),
    ensures
        m.wf(),
        m.rows_spec() == map.rows_spec(),
        m.cols_spec() == map.cols_spec(),
        forall|r: int, c: int|
            0 <= r < m.rows_spec() && 0 <= c < m.cols_spec() ==> #[trigger] m@[r][c] == if in_rect(
                r,
                c,
                y as int,
                x as int,
                rows as int,
                cols as int,
            ) {
                blank_tile_spec()
            } else {
                map@[r][c]
            },
{
    let mut ret_map = map;
    let mut xi: u32 = x;
    while xi < x + cols
        invariant
            x <= xi <= x + cols,
            x + cols <= map.cols_spec(),
            y + rows <= map.rows_spec(),
            map.wf(),
            ret_map.wf(),
            ret_map.rows_spec() == map.rows_spec(),
            ret_map.cols_spec() == map.cols_spec(),
            forall|r: int, c: int|
                0 <= r < map.rows_spec() && 0 <= c < map.cols_spec() ==> #[trigger] ret_map@[r][c]
                    == if in_rect(r, c, y as int, x as int, rows as int, xi - x) {
                    blank_tile_spec()
                } else {
                    map@[r][c]
                },
        decreases x + cols - xi,
    {
        let mut yi: u32 = y;
        while yi < y + rows
            invariant
                x <= xi < x + cols,
                y <= yi <= y + rows,
                x + cols <= map.cols_spec(),
                y + rows <= map.rows_spec(),
                map.wf(),
                ret_map.wf(),
                ret_map.rows_spec() == map.rows_spec(),
                ret_map.cols_spec() == map.cols_spec(),
                forall|r: int, c: int|
                    0 <= r < map.rows_spec() && 0 <= c < map.cols_spec() ==> #[trigger] ret_map@[r][c]
                        == if in_rect(r, c, y as int, x as int, rows as int, xi - x) || (c == xi
                        && y <= r < yi) {
                        blank_tile_spec()
                    } else {
                        map@[r][c]
                    },
            decreases y + rows - yi,
        {
            ret_map.set(yi as usize, xi as usize, blank_tile());
            yi = yi + 1;
        }
        xi = xi + 1;
    }
    ret_map
}

/// The size of the open room carved out at the centre of a generated map.
pub const INIT_ROOM_SIZE: u32 = 10;

/// Settings for building a map: its shape and the gold veins it holds.
pub struct MapGenerator {
    pub rows: usize,
    pub cols: usize,
    pub gold_size: u32,
    pub gold_count: u32,
}

impl MapGenerator {
    pub fn new(rows: u32, cols: u32) -> (g: Self)
        ensures
            g.rows == rows,
            g.cols == cols,
            g.gold_size == 0,
            g.gold_count == 0,
    {
        MapGenerator { rows: rows as usize, cols: cols as usize, gold_size: 0, gold_count: 0 }
    }

    /// A map of the generator's shape, walls everywhere.
    pub fn generate_blank(&self) -> (m: TileMap)
        requires
            self.rows <= u32::MAX,
            self.cols <= u32::MAX,
        ensures
            m.wf(),
            m.rows_spec() == self.rows,
            m.cols_spec() == self.cols,
            forall|r: int, c: int|
                0 <= r < self.rows && 0 <= c < self.cols ==> #[trigger] m@[r][c]
                    == default_wall_spec(),
    {
        TileMap::new(self.rows, self.cols)
    }

    /// A walled map with `gold_count` veins of gold, each a random walk of
    /// `gold_size` + 1 steps from a random start, and an open room of
    /// `INIT_ROOM_SIZE` cells square at its centre.
    pub fn generate(&self, rng: &mut rltk::RandomNumberGenerator) -> (m: TileMap)
        requires
            INIT_ROOM_SIZE <= self.rows <= i32::MAX,
            INIT_ROOM_SIZE <= self.cols <= i32::MAX,
        ensures
            m.wf(),
            m.rows_spec() == self.rows,
            m.cols_spec() == self.cols,
            forall|r: int, c: int|
                0 <= r < self.rows && 0 <= c < self.cols ==> if in_rect(
                    r,
                    c,
                    self.rows / 2 - INIT_ROOM_SIZE / 2,
                    self.cols / 2 - INIT_ROOM_SIZE / 2,
                    INIT_ROOM_SIZE as int,
                    INIT_ROOM_SIZE as int,
                ) {
                    #[trigger] m@[r][c] == blank_tile_spec()
                } else {
                    m@[r][c] == default_wall_spec() || m@[r][c] == gold_tile_spec()
                },
    {
        let mut map = self.generate_blank();
        let gold_tile = Tile { fg: Color::Yellow, bg: Color::Grey, ch: '#' as u16, walkable: false };
        let rows = self.rows as i32;
        let cols = self.cols as i32;
        let mut g: u32 = 0;
        while g < self.gold_count
            invariant
                INIT_ROOM_SIZE <= self.rows <= i32::MAX,
                INIT_ROOM_SIZE <= self.cols <= i32::MAX,
                rows == self.rows,
                cols == self.cols,
                gold_tile == gold_tile_spec(),
                map.wf(),
                map.rows_spec() == self.rows,
                map.cols_spec() == self.cols,
                forall|r: int, c: int|
                    0 <= r < self.rows && 0 <= c < self.cols ==> #[trigger] map@[r][c]
                        == default_wall_spec() || map@[r][c] == gold_tile_spec(),
            decreases self.gold_count - g,
        {
            let mut y: i32 = range_i32(rng, 1, rows);
            let mut x: i32 = range_i32(rng, 1, cols);
            let mut s: u64 = 0;
            while s <= self.gold_size as u64
                invariant
                    INIT_ROOM_SIZE <= self.rows <= i32::MAX,
                    INIT_ROOM_SIZE <= self.cols <= i32::MAX,
                    rows == self.rows,
                    cols == self.cols,
                    0 <= y < rows,
                    0 <= x < cols,
                    gold_tile == gold_tile_spec(),
                    map.wf(),
                    map.rows_spec() == self.rows,
                    map.cols_spec() == self.cols,
                    forall|r: int, c: int|
                        0 <= r < self.rows && 0 <= c < self.cols ==> #[trigger] map@[r][c]
                            == default_wall_spec() || map@[r][c] == gold_tile_spec(),
                decreases self.gold_size as u64 + 1 - s,
            {
                map.set(y as usize, x as usize, gold_tile);
                let d = range_i32(rng, 0, 4);
                let (new_y, new_x) = if d == 0 {
                    (y + 1, x)
                } else if d == 1 {
                    (y - 1, x)
                } else if d == 2 {
                    (y, x + 1)
                } else {
                    (y, x - 1)
                };
                if map.is_on(new_y, new_x) {
                    y = new_y;
                    x = new_x;
                }
                s = s + 1;
            }
            g = g + 1;
        }
        let half = INIT_ROOM_SIZE / 2;
        clear_room(
            map,
            self.rows as u32 / 2 - half,
            self.cols as u32 / 2 - half,
            INIT_ROOM_SIZE,
            INIT_ROOM_SIZE,
        )
    }
}

} // verus!
