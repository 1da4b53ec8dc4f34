use flatcaster::chunk::{
    maze_algo_of, plan_chunk, plan_chunk_from_seed, structure_kind, ChunkStructure, StructureKind,
};
use flatcaster::circular_maze::{carve_circular_maze, CircularMaze};
use flatcaster::disjoint_set::DisjointSet;
use flatcaster::hex_maze::{carve_hex_maze, HexMaze};
use flatcaster::rect_maze::{carve_rectangular_maze, filled_grid, MazeAlgo, RectMaze};
use rand::SeedableRng;
use rand_chacha::ChaCha8Rng;
use std::collections::VecDeque;

fn rect_reachable(m: &RectMaze) -> usize {
    let (w, h) = (m.width, m.height);
    let mut seen = vec![vec![false; w]; h];
    let mut queue = VecDeque::new();
    seen[0][0] = true;
    queue.push_back((0usize, 0usize));
    let mut count = 0;
    while let Some((x, y)) = queue.pop_front() {
        count += 1;
        let mut next = Vec::new();
        if y > 0 && !m.horiz[y][x] {
            next.push((x, y - 1));
        }
        if y + 1 < h && !m.horiz[y + 1][x] {
            next.push((x, y + 1));
        }
        if x > 0 && !m.vert[y][x] {
            next.push((x - 1, y));
        }
        if x + 1 < w && !m.vert[y][x + 1] {
            next.push((x + 1, y));
        }
        for (nx, ny) in next {
            if !seen[ny][nx] {
                seen[ny][nx] = true;
                queue.push_back((nx, ny));
            }
        }
    }
    count
}

fn rect_inner_openings(m: &RectMaze) -> usize {
    let mut n = 0;
    for y in 1..m.height {
        for x in 0..m.width {
            if !m.horiz[y][x] {
                n += 1;
            }
        }
    }
    for y in 0..m.height {
        for x in 1..m.width {
            if !m.vert[y][x] {
                n += 1;
            }
        }
    }
    n
}

fn check_rect(m: &RectMaze, w: usize, h: usize) {
    assert_eq!(m.width, w);
    assert_eq!(m.height, h);
    assert_eq!(m.horiz.len(), h + 1);
    assert_eq!(m.vert.len(), h);
    for x in 0..w {
        assert_eq!(m.horiz[0][x], x != 0);
        assert_eq!(m.horiz[h][x], x != w - 1);
    }
    for y in 0..h {
        assert!(m.vert[y][0] && m.vert[y][w]);
    }
    assert_eq!(rect_reachable(m), w * h);
    // a perfect maze: exactly one opening per cell beyond the first
    assert_eq!(rect_inner_openings(m), w * h - 1);
    let open = m.horiz.iter().chain(m.vert.iter()).flatten().filter(|&&w| !w).count();
    assert_eq!(open, w * h + 1);
    let closed = m.horiz.iter().chain(m.vert.iter()).flatten().filter(|&&w| w).count();
    assert_eq!(closed, w * h + w + h - 1);
}

#[test]
fn disjoint_set_starts_apart() {
    let mut d = DisjointSet::new(5);
    for i in 0..5 {
        assert_eq!(d.find(i), i);
    }
}

#[test]
fn disjoint_set_union_joins() {
    let mut d = DisjointSet::new(6);
    d.union(0, 1);
    d.union(2, 3);
    assert_eq!(d.find(0), d.find(1));
    assert_eq!(d.find(2), d.find(3));
    assert_ne!(d.find(1), d.find(2));
    d.union(1, 3);
    assert_eq!(d.find(0), d.find(2));
    assert_ne!(d.find(0), d.find(4));
    assert_eq!(d.find(5), 5);
}

#[test]
fn disjoint_set_union_is_transitive_over_chains() {
    let mut d = DisjointSet::new(10);
    for i in 0..9 {
        d.union(i, i + 1);
    }
    let r = d.find(0);
    for i in 0..10 {
        assert_eq!(d.find(i), r);
    }
}

#[test]
fn filled_grid_has_the_shape_asked() {
    let g = filled_grid(3, 4, true);
    assert_eq!(g.len(), 3);
    for row in &g {
        assert_eq!(row, &vec![true; 4]);
    }
}

#[test]
fn rect_maze_backtracker_is_perfect() {
    let mut rng = ChaCha8Rng::seed_from_u64(7);
    let m = carve_rectangular_maze(12, 9, MazeAlgo::RecursiveBacktracker, &mut rng);
    check_rect(&m, 12, 9);
}

#[test]
fn rect_maze_prim_is_perfect() {
    let mut rng = ChaCha8Rng::seed_from_u64(8);
    let m = carve_rectangular_maze(10, 14, MazeAlgo::Prim, &mut rng);
    check_rect(&m, 10, 14);
}

#[test]
fn rect_maze_kruskal_is_perfect() {
    let mut rng = ChaCha8Rng::seed_from_u64(9);
    let m = carve_rectangular_maze(25, 25, MazeAlgo::Kruskal, &mut rng);
    check_rect(&m, 25, 25);
}

#[test]
fn rect_maze_single_cell() {
    let mut rng = ChaCha8Rng::seed_from_u64(1);
    for algo in [MazeAlgo::RecursiveBacktracker, MazeAlgo::Prim, MazeAlgo::Kruskal] {
        let m = carve_rectangular_maze(1, 1, algo, &mut rng);
        check_rect(&m, 1, 1);
    }
}

#[test]
fn rect_maze_depends_on_the_seed() {
    let mut a = ChaCha8Rng::seed_from_u64(1);
    let mut b = ChaCha8Rng::seed_from_u64(2);
    let ma = carve_rectangular_maze(15, 15, MazeAlgo::RecursiveBacktracker, &mut a);
    let mb = carve_rectangular_maze(15, 15, MazeAlgo::RecursiveBacktracker, &mut b);
    assert!(ma.horiz != mb.horiz || ma.vert != mb.vert);
    let mut c = ChaCha8Rng::seed_from_u64(1);
    let mc = carve_rectangular_maze(15, 15, MazeAlgo::RecursiveBacktracker, &mut c);
    assert_eq!(ma.horiz, mc.horiz);
    assert_eq!(ma.vert, mc.vert);
}

#[test]
fn rect_maze_wall_segments_cover_closed_walls() {
    let mut rng = ChaCha8Rng::seed_from_u64(3);
    let m = carve_rectangular_maze(6, 5, MazeAlgo::Kruskal, &mut rng);
    let segs = m.wall_segments();
    // 6 * 6 horizontal and 5 * 7 vertical walls, less the two doors and
    // the 29 openings of a perfect maze of 30 cells
    assert_eq!(segs.len(), 36 + 35 - 2 - 29);
    // the top row starts after the entrance
    assert_eq!(segs[0], (1, 0, 2, 0));
    for &(x1, y1, x2, y2) in &segs {
        if y1 == y2 {
            assert_eq!(x2, x1 + 1);
            assert!(m.horiz[y1][x1]);
        } else {
            assert_eq!((x1, y2), (x2, y1 + 1));
            assert!(m.vert[y1][x1]);
        }
    }
}

fn circ_reachable(m: &CircularMaze) -> usize {
    let (rings, sectors) = (m.rings, m.sectors);
    let mut seen = vec![vec![false; sectors]; rings];
    let mut queue = VecDeque::new();
    seen[0][0] = true;
    queue.push_back((0usize, 0usize));
    let mut count = 0;
    while let Some((s, r)) = queue.pop_front() {
        count += 1;
        let mut next = Vec::new();
        if !m.radial[r][s] {
            next.push(((s + 1) % sectors, r));
        }
        let prev = if s == 0 { sectors - 1 } else { s - 1 };
        if !m.radial[r][prev] {
            next.push((prev, r));
        }
        if r + 1 < rings && !m.arcs[r + 1][s] {
            next.push((s, r + 1));
        }
        if r > 0 && !m.arcs[r][s] {
            next.push((s, r - 1));
        }
        for (ns, nr) in next {
            if !seen[nr][ns] {
                seen[nr][ns] = true;
                queue.push_back((ns, nr));
            }
        }
    }
    count
}

fn circ_open_walls(m: &CircularMaze) -> usize {
    let radial = m.radial.iter().flatten().filter(|&&w| !w).count();
    let arcs = m.arcs.iter().flatten().filter(|&&w| !w).count();
    radial + arcs
}

fn kind_of(s: &ChunkStructure) -> StructureKind {
    match s {
        ChunkStructure::Rect { .. } => StructureKind::Rect,
        ChunkStructure::Circular(_) => StructureKind::Circular,
        ChunkStructure::Hex(_) => StructureKind::Hex,
        ChunkStructure::Scatter => StructureKind::Scatter,
    }
}

#[test]
fn circular_maze_is_perfect() {
    for seed in 0..5u64 {
        let mut rng = ChaCha8Rng::seed_from_u64(seed);
        let m = carve_circular_maze(4, 9, &mut rng);
        // 35 inner openings join the 36 cells, plus the centre and exit doors
        assert_eq!(circ_open_walls(&m), 37);
        assert_eq!(circ_reachable(&m), 36);
    }
}

#[test]
fn circular_maze_reaches_every_cell() {
    let mut rng = ChaCha8Rng::seed_from_u64(42);
    let m = carve_circular_maze(5, 12, &mut rng);
    assert_eq!(m.rings, 5);
    assert_eq!(m.sectors, 12);
    assert_eq!(m.radial.len(), 5);
    assert_eq!(m.arcs.len(), 6);
    assert_eq!(circ_reachable(&m), 60);
    assert!(m.exit < 12);
    for s in 0..12 {
        assert_eq!(m.arcs[5][s], s != m.exit);
        assert_eq!(m.arcs[0][s], s != 0);
    }
}

#[test]
fn circular_maze_lists_closed_walls() {
    let mut rng = ChaCha8Rng::seed_from_u64(5);
    let m = carve_circular_maze(3, 8, &mut rng);
    let arcs = m.closed_arcs();
    let radials = m.closed_radials();
    for &(r, s) in &arcs {
        assert!(r >= 1 && r <= 3 && s < 8);
        assert!(m.arcs[r][s]);
    }
    for &(r, s) in &radials {
        assert!(r < 3 && s < 8);
        assert!(m.radial[r][s]);
    }
    // the outer ring keeps every arc but the exit
    assert_eq!(arcs.iter().filter(|&&(r, _)| r == 3).count(), 7);
    // a perfect maze of 24 cells lists 24 closed walls away from the centre
    assert_eq!(arcs.len() + radials.len(), 24);
}

fn hex_dist(q: i32, r: i32) -> i32 {
    (q.abs() + (q + r).abs() + r.abs()) / 2
}

const HEX_DIRS: [(i32, i32); 6] = [(1, 0), (1, -1), (0, -1), (-1, 0), (-1, 1), (0, 1)];

fn hex_open(m: &HexMaze, q: i32, r: i32, k: usize) -> bool {
    let rad = m.radius as i32;
    if k < 3 {
        !m.walls[k][(r + rad) as usize][(q + rad) as usize]
    } else {
        let (dq, dr) = HEX_DIRS[k];
        let (nq, nr) = (q + dq, r + dr);
        !m.walls[k - 3][(nr + rad) as usize][(nq + rad) as usize]
    }
}

fn hex_reachable(m: &HexMaze) -> (usize, usize) {
    let rad = m.radius as i32;
    let inside = |q: i32, r: i32| hex_dist(q, r) < rad || (q == 0 && r == 0);
    let side = (2 * rad + 1) as usize;
    let mut seen = vec![vec![false; side]; side];
    let mut queue = VecDeque::new();
    seen[rad as usize][rad as usize] = true;
    queue.push_back((0i32, 0i32));
    let mut count = 0;
    let mut cells = 0;
    for q in -rad..=rad {
        for r in -rad..=rad {
            if inside(q, r) {
                cells += 1;
            }
        }
    }
    while let Some((q, r)) = queue.pop_front() {
        count += 1;
        for k in 0..6 {
            let (nq, nr) = (q + HEX_DIRS[k].0, r + HEX_DIRS[k].1);
            if inside(nq, nr) && hex_open(m, q, r, k) {
                let (x, y) = ((nq + rad) as usize, (nr + rad) as usize);
                if !seen[y][x] {
                    seen[y][x] = true;
                    queue.push_back((nq, nr));
                }
            }
        }
    }
    (count, cells)
}

fn hex_open_walls(m: &HexMaze) -> usize {
    m.walls.iter().flatten().flatten().filter(|&&w| !w).count()
}

#[test]
fn hex_maze_is_perfect_with_a_closed_outline() {
    for radius in 1..6usize {
        let mut rng = ChaCha8Rng::seed_from_u64(radius as u64);
        let m = carve_hex_maze(radius, &mut rng);
        let (reached, cells) = hex_reachable(&m);
        assert_eq!(cells, 3 * radius * (radius - 1) + 1);
        assert_eq!(reached, cells);
        assert_eq!(hex_open_walls(&m) + 1, cells);
        // six walls a cell, less both sides of each of the cells - 1 passages
        assert_eq!(m.drawn_walls().len(), 4 * cells + 2);
        let rad = radius as i32;
        let inside = |q: i32, r: i32| hex_dist(q, r) < rad || (q == 0 && r == 0);
        for k in 0..3 {
            for y in 0..(2 * radius + 1) {
                for x in 0..(2 * radius + 1) {
                    if !m.walls[k][y][x] {
                        let (q, r) = (x as i32 - rad, y as i32 - rad);
                        assert!(inside(q, r));
                        assert!(inside(q + HEX_DIRS[k].0, r + HEX_DIRS[k].1));
                    }
                }
            }
        }
    }
}

#[test]
fn hex_maze_reaches_every_cell() {
    let mut rng = ChaCha8Rng::seed_from_u64(11);
    let m = carve_hex_maze(4, &mut rng);
    assert_eq!(m.radius, 4);
    let (reached, cells) = hex_reachable(&m);
    // the cells nearer than 4 steps: 1 + 6 + 12 + 18
    assert_eq!(cells, 37);
    assert_eq!(reached, 37);
}

#[test]
fn hex_maze_radius_zero_is_the_centre() {
    let mut rng = ChaCha8Rng::seed_from_u64(0);
    let m = carve_hex_maze(0, &mut rng);
    let (reached, cells) = hex_reachable(&m);
    assert_eq!((reached, cells), (1, 1));
    // the centre keeps its six walls
    assert_eq!(m.drawn_walls().len(), 6);
}

#[test]
fn hex_maze_drawn_walls_are_closed() {
    let mut rng = ChaCha8Rng::seed_from_u64(13);
    let m = carve_hex_maze(3, &mut rng);
    let walls = m.drawn_walls();
    assert!(!walls.is_empty());
    for &(q, r, k) in &walls {
        assert!(hex_dist(q, r) < 3);
        assert!(k < 6);
        let (nq, nr) = (q + HEX_DIRS[k].0, r + HEX_DIRS[k].1);
        if hex_dist(nq, nr) < 3 {
            assert!(!hex_open(&m, q, r, k));
        }
    }
}

#[test]
fn structure_kind_splits_draws() {
    let kinds: Vec<StructureKind> = (0..10).map(structure_kind).collect();
    assert_eq!(&kinds[0..4], &[StructureKind::Rect; 4]);
    assert_eq!(&kinds[4..7], &[StructureKind::Circular; 3]);
    assert_eq!(&kinds[7..9], &[StructureKind::Hex; 2]);
    assert_eq!(kinds[9], StructureKind::Scatter);
}

#[test]
fn maze_algo_of_draws() {
    assert_eq!(maze_algo_of(0), MazeAlgo::RecursiveBacktracker);
    assert_eq!(maze_algo_of(1), MazeAlgo::Prim);
    assert_eq!(maze_algo_of(2), MazeAlgo::Kruskal);
}

#[test]
fn chunk_plans_are_well_formed() {
    let mut seen = [false; 4];
    for seed in 0..60u64 {
        let (p, _) = plan_chunk_from_seed(seed);
        assert!((1..12).contains(&p.color_id));
        assert_eq!(p.color_id, 1 + p.color_draw);
        assert!(p.kind_draw < 10);
        assert_eq!(structure_kind(p.kind_draw), kind_of(&p.structure));
        match &p.structure {
            ChunkStructure::Rect { maze, algo, algo_draw } => {
                assert!(*algo_draw < 3);
                assert_eq!(maze_algo_of(*algo_draw), *algo);
                assert!((10..=25).contains(&maze.width) && (10..=25).contains(&maze.height));
                assert_eq!((maze.width, maze.height), (10 + p.size_draws.0, 10 + p.size_draws.1));
                check_rect(maze, maze.width, maze.height);
                seen[0] = true;
            }
            ChunkStructure::Circular(m) => {
                assert!((3..8).contains(&m.rings) && (8..20).contains(&m.sectors));
                assert_eq!((m.rings, m.sectors), (3 + p.size_draws.0, 8 + p.size_draws.1));
                assert_eq!(circ_reachable(m), m.rings * m.sectors);
                assert_eq!(circ_open_walls(m), m.rings * m.sectors + 1);
                seen[1] = true;
            }
            ChunkStructure::Hex(m) => {
                assert!((3..7).contains(&m.radius));
                assert_eq!((m.radius, p.size_draws.1), (3 + p.size_draws.0, 0));
                let (reached, cells) = hex_reachable(m);
                assert_eq!(reached, cells);
                assert_eq!(cells, 3 * m.radius * (m.radius - 1) + 1);
                assert_eq!(hex_open_walls(m) + 1, cells);
                seen[2] = true;
            }
            ChunkStructure::Scatter => {
                assert_eq!(p.size_draws, (0, 0));
                seen[3] = true;
            }
        }
    }
    assert_eq!(seen, [true; 4]);
}

#[test]
fn chunk_plan_is_a_function_of_the_seed() {
    let mut a = ChaCha8Rng::seed_from_u64(77);
    let pa = plan_chunk(&mut a);
    let (pb, _) = plan_chunk_from_seed(77);
    assert_eq!(pa.color_id, pb.color_id);
    assert_eq!(pa.kind_draw, pb.kind_draw);
    match (&pa.structure, &pb.structure) {
        (
            ChunkStructure::Rect { maze: x, algo: ax, algo_draw: dx },
            ChunkStructure::Rect { maze: y, algo: ay, algo_draw: dy },
        ) => {
            assert_eq!(ax, ay);
            assert_eq!(dx, dy);
            assert_eq!(x.horiz, y.horiz);
        }
        (ChunkStructure::Circular(x), ChunkStructure::Circular(y)) => assert_eq!(x.arcs, y.arcs),
        (ChunkStructure::Hex(x), ChunkStructure::Hex(y)) => assert_eq!(x.walls, y.walls),
        (ChunkStructure::Scatter, ChunkStructure::Scatter) => {}
        _ => panic!("same seed, different kinds"),
    }
}
