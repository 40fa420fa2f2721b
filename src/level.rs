//! The background: a grid of tiles laid out with four-way mirror symmetry.
use vstd::prelude::*;
use crate::geometry::{Point, ONE};
use crate::random::random_u32;

verus! {

/// Number of distinct background tiles; tile ids run from 1 to `TILE_KINDS`.
pub const TILE_KINDS: u32 = 6;

/// Size of the level in tiles and of a tile in world units.
#[derive(Clone, Copy, Debug, PartialEq, Eq, Structural)]
pub struct Level {
    pub needs_regeneration: bool,
    pub width: u16,
    pub height: u16,
    pub tile_width: u16,
    pub tile_height: u16,
}

/// One background tile: its centre in steps and which tile it shows.
#[derive(Clone, Copy, Debug, PartialEq, Eq, Structural)]
pub struct Tile {
    pub pos: Point,
    pub tile_id: u32,
}

proof fn lemma_mul_within(a: int, b: int, bound_a: int, bound_b: int)
    requires
        0 <= a <= bound_a,
        0 <= b <= bound_b,
    ensures
        0 <= a * b <= bound_a * bound_b,
{
    assert(0 <= a * b <= bound_a * bound_b) by (nonlinear_arith)
        requires
            0 <= a <= bound_a,
            0 <= b <= bound_b,
    ;
}

impl Level {
    /// Grid cells of one quadrant, each drawn once and mirrored into the others.
    pub open spec fn cells(self) -> int {
        (self.width / 2) as int * (self.height / 2) as int
    }

    /// Tile `j` of the layout made from the draws `draws`: cell `k = j / 4`
    /// (column `k % (width / 2)`, row `k / (width / 2)`) shows tile
    /// `1 + draws[k] % TILE_KINDS` at its position mirrored by `j % 4` in the order
    /// `(x, y)`, `(-x, y)`, `(x, -y)`, `(-x, -y)`.
    pub open spec fn tile_at(self, draws: Seq<u32>, j: int) -> Tile {
        let k = j / 4;
        let col = k % (self.width / 2) as int;
        let row = k / (self.width / 2) as int;
        let x = col * self.tile_width * ONE;
        let y = row * self.tile_height * ONE;
        Tile {
            pos: Point {
                x: (if j % 4 == 1 || j % 4 == 3 { -x } else { x }) as i64,
                y: (if j % 4 >= 2 { -y } else { y }) as i64,
            },
            tile_id: (1 + draws[k] as int % (TILE_KINDS as int)) as u32,
        }
    }

    pub open spec fn is_layout(self, draws: Seq<u32>, tiles: Seq<Tile>) -> bool {
        &&& draws.len() == self.cells()
        &&& tiles.len() == 4 * self.cells()
        &&& forall|j: int| 0 <= j < tiles.len() ==> #[trigger] tiles[j] == self.tile_at(draws, j)
    }

    /// A 50 x 50 level of 16 x 16 tiles that still has to be laid out.
    pub fn new() -> (r: Level)
        ensures
            r.needs_regeneration,
            r.width == 50,
            r.height == 50,
            r.tile_width == 16,
            r.tile_height == 16,
    {
        Level { needs_regeneration: true, width: 50, height: 50, tile_width: 16, tile_height: 16 }
    }

    /// The tiles of the layout made from `draws`, one draw per cell of a quadrant.
    pub fn layout_with(&self, draws: &Vec<u32>) -> (tiles: Vec<Tile>)
        requires
            draws@.len() == self.cells(),
        ensures
            self.is_layout(draws@, tiles@),
    {
        let half_w: u16 = self.width / 2;
        let half_h: u16 = self.height / 2;
        let mut tiles: Vec<Tile> = Vec::new();
        let mut row: u16 = 0;
        while row < half_h
            invariant
                half_w == self.width / 2,
                half_h == self.height / 2,
                row <= half_h,
                draws@.len() == self.cells(),
                tiles@.len() == 4 * (row * half_w),
                forall|j: int| 0 <= j < tiles@.len() ==> #[trigger] tiles@[j] == self.tile_at(draws@, j),
            decreases half_h - row,
        {
            let mut col: u16 = 0;
            while col < half_w
                invariant
                    half_w == self.width / 2,
                    half_h == self.height / 2,
                    row < half_h,
                    col <= half_w,
                    draws@.len() == self.cells(),
                    tiles@.len() == 4 * (row * half_w + col),
                    forall|j: int| 0 <= j < tiles@.len() ==> #[trigger] tiles@[j] == self.tile_at(draws@, j),
                decreases half_w - col,
            {
                proof {
                    lemma_mul_within(row as int, half_w as int, 0x8000, 0x8000);
                    lemma_mul_within(col as int, self.tile_width as int, 0x8000, 0xFFFF);
                    lemma_mul_within(row as int, self.tile_height as int, 0x8000, 0xFFFF);
                    lemma_mul_within(col as int * self.tile_width as int, ONE as int, 0x8000int * 0xFFFFint, ONE as int);
                    lemma_mul_within(row as int * self.tile_height as int, ONE as int, 0x8000int * 0xFFFFint, ONE as int);
                }
                let k: usize = row as usize * half_w as usize + col as usize;
                assert(k < self.cells()) by (nonlinear_arith)
                    requires
                        k == row * half_w + col,
                        col < half_w,
                        row < half_h,
                        self.cells() == half_w * half_h,
                ;
                assert((k as int) / (half_w as int) == row && (k as int) % (half_w as int) == col) by (nonlinear_arith)
                    requires
                        k == row * half_w + col,
                        0 <= col < half_w,
                        0 <= row,
                ;
                let id: u32 = 1 + draws[k] % TILE_KINDS;
                let x: i64 = col as i64 * self.tile_width as i64 * ONE;
                let y: i64 = row as i64 * self.tile_height as i64 * ONE;
                let ghost start = tiles@.len() as int;
                tiles.push(Tile { pos: Point { x, y }, tile_id: id });
                tiles.push(Tile { pos: Point { x: -x, y }, tile_id: id });
                tiles.push(Tile { pos: Point { x, y: -y }, tile_id: id });
                tiles.push(Tile { pos: Point { x: -x, y: -y }, tile_id: id });
                assert forall|j: int| 0 <= j < tiles@.len() implies #[trigger] tiles@[j] == self.tile_at(draws@, j) by {
                    if j >= start {
                        assert(j / 4 == k as int && j % 4 == j - start) by (nonlinear_arith)
                            requires
                                start == 4 * k,
                                start <= j < start + 4,
                        ;
                    }
                }
                assert(4 * (row * half_w + col) + 4 == 4 * (row * half_w + (col + 1)));
                col = col + 1;
            }
            assert(row * half_w + half_w == (row + 1) * half_w) by (nonlinear_arith);
            row = row + 1;
        }
        assert(half_h * half_w == self.cells()) by (nonlinear_arith)
            requires
                half_w == self.width / 2,
                half_h == self.height / 2,
                self.cells() == (self.width / 2) as int * (self.height / 2) as int,
        ;
        tiles
    }

    /// When the level still has to be laid out, draws one random tile per cell of
    /// a quadrant, marks the level done and returns the mirrored layout.
    pub fn regenerate_level(&mut self) -> (r: Option<Vec<Tile>>)
        ensures
            final(self).needs_regeneration == false,
            final(self).width == old(self).width,
            final(self).height == old(self).height,
            final(self).tile_width == old(self).tile_width,
            final(self).tile_height == old(self).tile_height,
            !old(self).needs_regeneration ==> r.is_none(),
            old(self).needs_regeneration ==> r.is_some()
                && (exists|draws: Seq<u32>| old(self).is_layout(draws, r.unwrap()@)),
    {
        if !self.needs_regeneration {
            return None;
        }
        proof {
            lemma_mul_within((self.width / 2) as int, (self.height / 2) as int, 0x8000, 0x8000);
        }
        let cells: usize = (self.width / 2) as usize * (self.height / 2) as usize;
        let mut draws: Vec<u32> = Vec::new();
        while draws.len() < cells
            invariant
                draws@.len() <= cells,
            decreases cells - draws@.len(),
        {
            draws.push(random_u32());
        }
        let tiles: Vec<Tile> = self.layout_with(&draws);
        self.needs_regeneration = false;
        let r: Option<Vec<Tile>> = Some(tiles);
        assert(old(self).is_layout(draws@, r.unwrap()@));
        r
    }
}

} // verus!
