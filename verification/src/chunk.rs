//! What a chunk of the world holds: one maze, of a kind, size and colour
//! drawn from the chunk's seeded generator, or scattered blocks.

use vstd::prelude::*;
use rand_chacha::ChaCha8Rng;
use crate::rng::{rng_below, rng_below_u32, rng_from_seed};
use crate::rect_maze::{MazeAlgo, RectMaze, carve_rectangular_maze};
use crate::circular_maze::{CircularMaze, carve_circular_maze};
use crate::hex_maze::{HexMaze, carve_hex_maze};

verus! {

/// The kinds of structure a chunk can hold.
#[derive(Debug, Clone, Copy, PartialEq, Eq, Structural)]
pub enum StructureKind {
    Rect,
    Circular,
    Hex,
    Scatter,
}

/// The kind a draw in `0..10` picks: four in ten rectangular mazes, three
/// circular, two hexagonal, one scattered blocks.
pub open spec fn structure_kind_spec(draw: u32) -> StructureKind {
    if draw < 4 {
        StructureKind::Rect
    } else if draw < 7 {
        StructureKind::Circular
    } else if draw < 9 {
        StructureKind::Hex
    } else {
        StructureKind::Scatter
    }
}

/// The kind of structure a draw in `0..10` picks.
pub fn structure_kind(draw: u32) -> (k: StructureKind)
    ensures
        k == structure_kind_spec(draw),
{
    if draw < 4 {
        StructureKind::Rect
    } else if draw < 7 {
        StructureKind::Circular
    } else if draw < 9 {
        StructureKind::Hex
    } else {
        StructureKind::Scatter
    }
}

/// The carving algorithm a draw in `0..3` picks.
pub open spec fn maze_algo_spec(draw: u32) -> MazeAlgo {
    if draw == 0 {
        MazeAlgo::RecursiveBacktracker
    } else if draw == 1 {
        MazeAlgo::Prim
    } else {
        MazeAlgo::Kruskal
    }
}

/// The carving algorithm a draw in `0..3` picks.
pub fn maze_algo_of(draw: u32) -> (a: MazeAlgo)
    ensures
        a == maze_algo_spec(draw),
{
    if draw == 0 {
        MazeAlgo::RecursiveBacktracker
    } else if draw == 1 {
        MazeAlgo::Prim
    } else {
        MazeAlgo::Kruskal
    }
}

/// The structure of a chunk.
pub enum ChunkStructure {
    /// A rectangular maze carved with `algo`, which the draw `algo_draw`
    /// picked.
    Rect { maze: RectMaze, algo: MazeAlgo, algo_draw: u32 },
    Circular(CircularMaze),
    Hex(HexMaze),
    /// Solid blocks, placed by the caller with further draws.
    Scatter,
}

/// A chunk's structure and the colour of its walls.
pub struct ChunkPlan {
    pub structure: ChunkStructure,
    pub color_id: u32,
    /// The draw in `0..10` that picked the kind of structure.
    pub kind_draw: u32,
    /// The draw in `0..11` that picked the colour, one less than it.
    pub color_draw: u32,
    /// The draws that picked the maze's size: width and height (each in
    /// `0..16`, 10 less than the size) for a rectangular maze; rings (in
    /// `0..5`, 3 less) and sectors (in `0..12`, 8 less) for a circular one;
    /// the radius (in `0..4`, 3 less) and 0 for a hexagonal one; none (both
    /// 0) for scattered blocks.
    pub size_draws: (usize, usize),
}

impl ChunkPlan {
    /// The kind is the one its draw picks (see `structure_kind_spec`) and the
    /// colour one more than its draw; a rectangular maze has 10 more cells a
    /// side than its size draws and the algorithm its draw picks (see
    /// `maze_algo_spec`), a circular one 3 more rings and 8 more sectors than
    /// its draws, a hexagonal one a radius 3 more than its draw; each maze is
    /// a perfect maze with its doors (see the carvers).
    pub open spec fn wf(&self) -> bool {
        &&& self.color_draw < 11
        &&& self.color_id == 1 + self.color_draw
        &&& self.kind_draw < 10
        &&& self.kind() == structure_kind_spec(self.kind_draw)
        &&& match self.structure {
            ChunkStructure::Rect { maze, algo, algo_draw } => {
                &&& algo_draw < 3
                &&& algo == maze_algo_spec(algo_draw)
                &&& self.size_draws.0 < 16
                &&& self.size_draws.1 < 16
                &&& maze.width == 10 + self.size_draws.0
                &&& maze.height == 10 + self.size_draws.1
                &&& maze.shaped()
                &&& maze.border_with_doors()
                &&& maze.all_reachable()
                &&& maze.open_walls() == maze.width * maze.height + 1
            },
            ChunkStructure::Circular(m) => {
                &&& self.size_draws.0 < 5
                &&& self.size_draws.1 < 12
                &&& m.rings == 3 + self.size_draws.0
                &&& m.sectors == 8 + self.size_draws.1
                &&& m.shaped()
                &&& m.doors()
                &&& m.all_reachable()
                &&& m.open_walls() == m.rings * m.sectors + 1
            },
            ChunkStructure::Hex(m) => {
                &&& self.size_draws.0 < 4
                &&& self.size_draws.1 == 0
                &&& m.radius == 3 + self.size_draws.0
                &&& m.shaped()
                &&& m.all_reachable()
                &&& m.outline_closed()
                &&& m.open_walls() + 1 == m.cell_count()
                &&& m.cell_count() == 3 * m.radius * (m.radius - 1) + 1
            },
            ChunkStructure::Scatter => self.size_draws == (0usize, 0usize),
        }
    }

    /// The kind of the structure.
    pub open spec fn kind(&self) -> StructureKind {
        match self.structure {
            ChunkStructure::Rect { .. } => StructureKind::Rect,
            ChunkStructure::Circular(_) => StructureKind::Circular,
            ChunkStructure::Hex(_) => StructureKind::Hex,
            ChunkStructure::Scatter => StructureKind::Scatter,
        }
    }
}

/// Draws a chunk's structure from `rng`: its kind (see `structure_kind`),
/// its colour, then the maze's size, algorithm and walls. For scattered
/// blocks the generator is left for the caller's further draws.
pub fn plan_chunk(rng: &mut ChaCha8Rng) -> (p: ChunkPlan)
    ensures
        p.wf(),
{
    let draw = rng_below_u32(rng, 10);
    let color_draw = rng_below_u32(rng, 11);
    let color_id = 1 + color_draw;
    let (structure, size_draws) = match structure_kind(draw) {
        StructureKind::Rect => {
            let w_draw = rng_below(rng, 16);
            let h_draw = rng_below(rng, 16);
            let w = 10 + w_draw;
            let h = 10 + h_draw;
            let algo_draw = rng_below_u32(rng, 3);
            let algo = maze_algo_of(algo_draw);
            assert((w + 1) * (h + 1) <= 26 * 26) by (nonlinear_arith)
                requires
                    w <= 25,
                    h <= 25,
            ;
            let maze = carve_rectangular_maze(w, h, algo, rng);
            (ChunkStructure::Rect { maze, algo, algo_draw }, (w_draw, h_draw))
        },
        StructureKind::Circular => {
            let rings_draw = rng_below(rng, 5);
            let sectors_draw = rng_below(rng, 12);
            let maze = carve_circular_maze(3 + rings_draw, 8 + sectors_draw, rng);
            (ChunkStructure::Circular(maze), (rings_draw, sectors_draw))
        },
        StructureKind::Hex => {
            let radius_draw = rng_below(rng, 4);
            (ChunkStructure::Hex(carve_hex_maze(3 + radius_draw, rng)), (radius_draw, 0))
        },
        StructureKind::Scatter => (ChunkStructure::Scatter, (0, 0)),
    };
    ChunkPlan { structure, color_id, kind_draw: draw, color_draw, size_draws }
}

/// The structure of the chunk whose seed is `seed`, and the generator after
/// the draws that made it (see `plan_chunk`).
pub fn plan_chunk_from_seed(seed: u64) -> (r: (ChunkPlan, ChaCha8Rng))
    ensures
        r.0.wf(),
{
    let mut rng = rng_from_seed(seed);
    let p = plan_chunk(&mut rng);
    (p, rng)
}


/// Of the ten kind draws, the first four give a rectangular maze, the next
/// three a circular one, the next two a hexagonal one and the last
/// scattered blocks; the three algorithm draws give, in order, the
/// backtracker, Prim's algorithm and Kruskal's.
pub proof fn lemma_draw_tables(draw: u32)
    requires
        draw < 10,
    ensures
        (structure_kind_spec(draw) == StructureKind::Rect) == (draw <= 3),
        (structure_kind_spec(draw) == StructureKind::Circular) == (4 <= draw <= 6),
        (structure_kind_spec(draw) == StructureKind::Hex) == (7 <= draw <= 8),
        (structure_kind_spec(draw) == StructureKind::Scatter) == (draw == 9),
        maze_algo_spec(0) == MazeAlgo::RecursiveBacktracker,
        maze_algo_spec(1) == MazeAlgo::Prim,
        maze_algo_spec(2) == MazeAlgo::Kruskal,
{
}

} // verus!
