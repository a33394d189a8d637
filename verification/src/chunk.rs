//! The dense voxel volume: a single three-dimensional grid of blocks with
//! bounds-checked access, an optional world-space origin, an optional
//! procedural fallback for out-of-range reads, and a coarse dirty-region
//! bitmap that drives incremental mesh rebuilds.

use vstd::prelude::*;

use crate::block::Biome;
use crate::block::Block;
use crate::terrain::spec_biome_at;
use crate::terrain::spec_procedural_block_at;
use crate::terrain::spec_terrain_block_at;
use crate::terrain::spec_terrain_height;
use crate::terrain::SEA_LEVEL;

verus! {

/// The block one cell of the base terrain holds after generation with the
/// given origin and surface cap: the pure function shared by the bulk pass
/// and its contract.
pub open spec fn spec_generated_block(ox: int, oz: int, cap: int, x: int, y: int, z: int) -> Block {
    let wx = ox + x;
    let wz = oz + z;
    let biome = spec_biome_at(wx, wz);
    let h0 = spec_terrain_height(wx, wz, biome);
    let h = if h0 > cap {
        cap
    } else {
        h0
    };
    spec_terrain_block_at(wx, y, wz, biome, h, SEA_LEVEL as int)
}

/// Whether local coordinate `c` lies within two cells of a vegetation grid
/// point: the grid starts at 10 and repeats every 24 cells, up to `limit`.
pub open spec fn spec_near_grid(c: int, limit: int) -> bool {
    c >= 8 && (c - 8) % 24 <= 4 && 10 + 24 * ((c - 8) / 24) < limit
}

/// The cells the structure pass may touch: the four house boxes, the target
/// marker's box, and the columns near vegetation grid points. Everywhere
/// else, a generated volume holds exactly the base terrain.
pub open spec fn spec_structure_zone(w: int, d: int, x: int, y: int, z: int) -> bool {
    ||| 40 <= x <= 52 && 28 <= y <= 39 && 42 <= z <= 52
    ||| 180 <= x <= 194 && 30 <= y <= 42 && 120 <= z <= 132
    ||| 340 <= x <= 351 && 32 <= y <= 42 && 300 <= z <= 311
    ||| 420 <= x <= 436 && 34 <= y <= 45 && 410 <= z <= 423
    ||| 248 <= x <= 252 && 34 <= y <= 38
    ||| w > 20 && d > 20 && spec_near_grid(x, w - 10) && spec_near_grid(z, d - 10)
}

/// The material of one cell of a house's box: plank roof, cobblestone
/// floor, brick walls with glass window cut-outs, air inside.
pub open spec fn spec_house_cell(
    x0: int,
    y0: int,
    z0: int,
    w: int,
    h: int,
    d: int,
    i: int,
    j: int,
    k: int,
) -> Block {
    let wall = i == x0 || i == x0 + w - 1 || k == z0 || k == z0 + d - 1;
    let roof = j == y0 + h - 1;
    let floor = j == y0;
    if roof {
        Block::Planks
    } else if floor {
        Block::Cobblestone
    } else if wall {
        let window = j > y0 + 1 && j < y0 + h - 2 && ((i == x0 || i == x0 + w - 1) && k == z0 + d
            / 2 || (k == z0 || k == z0 + d - 1) && i == x0 + w / 2);
        if window {
            Block::Glass
        } else {
            Block::Bricks
        }
    } else {
        Block::Air
    }
}

/// Extent of the default volume along x.
pub const CHUNK_WIDTH: usize = 512;

/// Extent of the default volume along z.
pub const CHUNK_DEPTH: usize = 512;

/// Extent of the default volume along y.
pub const CHUNK_HEIGHT: usize = 96;

/// Edge length of one cubic dirty-tracking region.
pub const CHUNK_REGION_SIZE: usize = 16;

/// Largest accepted extent along any axis.
pub const MAX_EXTENT: usize = 4096;

/// The voxel volume. Cells are indexed by local `(x, y, z)`; the origin maps
/// local indices to world coordinates along x and z.
pub struct Chunk {
    blocks: Vec<Block>,
    dirty_regions: Vec<bool>,
    origin_x: i32,
    origin_z: i32,
    width: usize,
    height: usize,
    depth: usize,
    fallback: bool,
}

impl Chunk {
    /// Extent along x.
    pub closed spec fn spec_width(self) -> int {
        self.width as int
    }

    /// Extent along y.
    pub closed spec fn spec_height(self) -> int {
        self.height as int
    }

    /// Extent along z.
    pub closed spec fn spec_depth(self) -> int {
        self.depth as int
    }

    /// World x of local x = 0.
    pub closed spec fn spec_origin_x(self) -> int {
        self.origin_x as int
    }

    /// World z of local z = 0.
    pub closed spec fn spec_origin_z(self) -> int {
        self.origin_z as int
    }

    /// Whether out-of-range reads synthesize procedural terrain instead of air.
    pub closed spec fn spec_fallback(self) -> bool {
        self.fallback
    }

    /// The stored cells, in index order.
    pub closed spec fn blocks_view(self) -> Seq<Block> {
        self.blocks@
    }

    /// The dirty-region bitmap, in region-index order.
    pub closed spec fn dirty_view(self) -> Seq<bool> {
        self.dirty_regions@
    }

    /// Region count along x.
    pub open spec fn spec_regions_x(self) -> int {
        (self.spec_width() + 15) / 16
    }

    /// Region count along y.
    pub open spec fn spec_regions_y(self) -> int {
        (self.spec_height() + 15) / 16
    }

    /// Region count along z.
    pub open spec fn spec_regions_z(self) -> int {
        (self.spec_depth() + 15) / 16
    }

    /// Well-formedness: extents are positive and bounded, the origin is far
    /// from the i32 edge, and both backing vectors have exactly the lengths
    /// the extents dictate.
    pub open spec fn wf(self) -> bool {
        &&& 1 <= self.spec_width() <= MAX_EXTENT as int
        &&& 1 <= self.spec_height() <= MAX_EXTENT as int
        &&& 1 <= self.spec_depth() <= MAX_EXTENT as int
        &&& -1000000000 <= self.spec_origin_x() <= 1000000000
        &&& -1000000000 <= self.spec_origin_z() <= 1000000000
        &&& self.spec_width() * self.spec_height() * self.spec_depth() <= 0x7fffffff
        &&& self.blocks_view().len() == self.spec_width() * self.spec_height() * self.spec_depth()
        &&& self.dirty_view().len() == self.spec_regions_x() * self.spec_regions_y()
            * self.spec_regions_z()
    }

    /// Whether a local coordinate triple addresses a stored cell.
    pub open spec fn spec_in_bounds(self, x: int, y: int, z: int) -> bool {
        0 <= x < self.spec_width() && 0 <= y < self.spec_height() && 0 <= z < self.spec_depth()
    }

    /// Linear offset of a local cell: same-height x scans are contiguous.
    pub open spec fn spec_cell_index(self, x: int, y: int, z: int) -> int {
        x + z * self.spec_width() + y * self.spec_width() * self.spec_depth()
    }

    /// The block stored at a local cell.
    pub open spec fn spec_block_at(self, x: int, y: int, z: int) -> Block {
        self.blocks_view()[self.spec_cell_index(x, y, z)]
    }

    /// Whether a region coordinate triple addresses a tracked region.
    pub open spec fn spec_region_valid(self, rx: int, ry: int, rz: int) -> bool {
        0 <= rx < self.spec_regions_x() && 0 <= ry < self.spec_regions_y() && 0 <= rz
            < self.spec_regions_z()
    }

    /// Linear offset of a region.
    pub open spec fn spec_region_index(self, rx: int, ry: int, rz: int) -> int {
        rx + rz * self.spec_regions_x() + ry * self.spec_regions_x() * self.spec_regions_z()
    }

    /// The dirty bit of a region.
    pub open spec fn spec_dirty_at(self, rx: int, ry: int, rz: int) -> bool {
        self.dirty_view()[self.spec_region_index(rx, ry, rz)]
    }

    /// A write to local cell `(x, y, z)` marks region `(rx, ry, rz)`: the
    /// region of the cell itself and all 26 neighbouring regions, because
    /// face visibility at a region boundary depends on the neighbour too.
    pub open spec fn spec_marks_region(self, x: int, y: int, z: int, rx: int, ry: int, rz: int) -> bool {
        &&& -1 <= rx - x / 16 <= 1
        &&& -1 <= ry - y / 16 <= 1
        &&& -1 <= rz - z / 16 <= 1
    }

    /// Two chunks with the same extents, origin and fallback mode.
    pub open spec fn spec_same_shape(self, other: Chunk) -> bool {
        &&& self.spec_width() == other.spec_width()
        &&& self.spec_height() == other.spec_height()
        &&& self.spec_depth() == other.spec_depth()
        &&& self.spec_origin_x() == other.spec_origin_x()
        &&& self.spec_origin_z() == other.spec_origin_z()
        &&& self.spec_fallback() == other.spec_fallback()
    }

    /// The total, never-failing read at world coordinates: stored cells are
    /// returned as stored; y outside the vertical extent is empty; x/z outside
    /// the addressable extent is empty, or deterministically recomputed
    /// terrain when the fallback is enabled.
    pub open spec fn spec_get_world(self, x: int, y: int, z: int) -> Block {
        if !(0 <= y < self.spec_height()) {
            Block::Air
        } else if self.spec_origin_x() <= x < self.spec_origin_x() + self.spec_width()
            && self.spec_origin_z() <= z < self.spec_origin_z() + self.spec_depth() {
            self.spec_block_at(x - self.spec_origin_x(), y, z - self.spec_origin_z())
        } else if self.spec_fallback() {
            spec_procedural_block_at(x, y, z)
        } else {
            Block::Air
        }
    }

    /// A cell's linear offset stays inside the backing vector.
    pub proof fn lemma_cell_index_bounds(self, x: int, y: int, z: int)
        requires
            self.wf(),
            self.spec_in_bounds(x, y, z),
        ensures
            0 <= self.spec_cell_index(x, y, z) < self.blocks_view().len(),
    {
        let w = self.spec_width();
        let h = self.spec_height();
        let d = self.spec_depth();
        assert(0 <= x + z * w + y * w * d < w * h * d) by (nonlinear_arith)
            requires
                0 <= x < w,
                0 <= y < h,
                0 <= z < d,
        ;
    }

    /// Distinct in-bounds cells have distinct linear offsets.
    pub proof fn lemma_cell_index_injective(self, x1: int, y1: int, z1: int, x2: int, y2: int, z2: int)
        requires
            self.wf(),
            self.spec_in_bounds(x1, y1, z1),
            self.spec_in_bounds(x2, y2, z2),
            !(x1 == x2 && y1 == y2 && z1 == z2),
        ensures
            self.spec_cell_index(x1, y1, z1) != self.spec_cell_index(x2, y2, z2),
    {
        let w = self.spec_width();
        let d = self.spec_depth();
        assert(x1 + z1 * w + y1 * w * d != x2 + z2 * w + y2 * w * d) by (nonlinear_arith)
            requires
                0 <= x1 < w,
                0 <= x2 < w,
                0 <= z1 < d,
                0 <= z2 < d,
                0 <= y1,
                0 <= y2,
                !(x1 == x2 && y1 == y2 && z1 == z2),
        ;
    }

    /// A region's linear offset stays inside the bitmap.
    pub proof fn lemma_region_index_bounds(self, rx: int, ry: int, rz: int)
        requires
            self.wf(),
            self.spec_region_valid(rx, ry, rz),
        ensures
            0 <= self.spec_region_index(rx, ry, rz) < self.dirty_view().len(),
    {
        let gx = self.spec_regions_x();
        let gy = self.spec_regions_y();
        let gz = self.spec_regions_z();
        assert(0 <= rx + rz * gx + ry * gx * gz < gx * gy * gz) by (nonlinear_arith)
            requires
                0 <= rx < gx,
                0 <= ry < gy,
                0 <= rz < gz,
        ;
    }

    /// Distinct regions have distinct linear offsets.
    pub proof fn lemma_region_index_injective(
        self,
        rx1: int,
        ry1: int,
        rz1: int,
        rx2: int,
        ry2: int,
        rz2: int,
    )
        requires
            self.wf(),
            self.spec_region_valid(rx1, ry1, rz1),
            self.spec_region_valid(rx2, ry2, rz2),
            !(rx1 == rx2 && ry1 == ry2 && rz1 == rz2),
        ensures
            self.spec_region_index(rx1, ry1, rz1) != self.spec_region_index(rx2, ry2, rz2),
    {
        let gx = self.spec_regions_x();
        let gz = self.spec_regions_z();
        assert(rx1 + rz1 * gx + ry1 * gx * gz != rx2 + rz2 * gx + ry2 * gx * gz)
            by (nonlinear_arith)
            requires
                0 <= rx1 < gx,
                0 <= rx2 < gx,
                0 <= rz1 < gz,
                0 <= rz2 < gz,
                0 <= ry1,
                0 <= ry2,
                !(rx1 == rx2 && ry1 == ry2 && rz1 == rz2),
        ;
    }

    /// An empty volume: every cell is air and every region starts dirty.
    fn build(
        width: usize,
        height: usize,
        depth: usize,
        origin_x: i32,
        origin_z: i32,
        fallback: bool,
    ) -> (c: Chunk)
        requires
            1 <= width <= MAX_EXTENT,
            1 <= height <= MAX_EXTENT,
            1 <= depth <= MAX_EXTENT,
            width * height * depth <= 0x7fffffff,
            -1000000000 <= origin_x <= 1000000000,
            -1000000000 <= origin_z <= 1000000000,
        ensures
            c.wf(),
            c.spec_width() == width,
            c.spec_height() == height,
            c.spec_depth() == depth,
            c.spec_origin_x() == origin_x,
            c.spec_origin_z() == origin_z,
            c.spec_fallback() == fallback,
            forall|i: int| 0 <= i < c.blocks_view().len() ==> c.blocks_view()[i] == Block::Air,
            forall|i: int| 0 <= i < c.dirty_view().len() ==> c.dirty_view()[i],
            forall|i: int, j: int, k: int|
                c.spec_in_bounds(i, j, k) ==> c.spec_block_at(i, j, k) == Block::Air,
            forall|rx: int, ry: int, rz: int|
                c.spec_region_valid(rx, ry, rz) ==> c.spec_dirty_at(rx, ry, rz),
    {
        proof {
            assert(width * height <= 16777216) by (nonlinear_arith)
                requires
                    1 <= width <= 4096,
                    1 <= height <= 4096,
            ;
        }
        let cell_count: usize = width * height * depth;
        let mut blocks: Vec<Block> = Vec::with_capacity(cell_count);
        let mut i: usize = 0;
        while i < cell_count
            invariant
                i <= cell_count,
                blocks@.len() == i,
                forall|j: int| 0 <= j < i ==> blocks@[j] == Block::Air,
            decreases cell_count - i,
        {
            blocks.push(Block::Air);
            i = i + 1;
        }
        let gx: usize = (width + 15) / 16;
        let gy: usize = (height + 15) / 16;
        let gz: usize = (depth + 15) / 16;
        proof {
            assert(gx * gy <= 66049 && gx * gy * gz <= 16974593) by (nonlinear_arith)
                requires
                    1 <= gx <= 257,
                    1 <= gy <= 257,
                    1 <= gz <= 257,
            ;
        }
        let region_count: usize = gx * gy * gz;
        let mut dirty_regions: Vec<bool> = Vec::with_capacity(region_count);
        let mut r: usize = 0;
        while r < region_count
            invariant
                r <= region_count,
                dirty_regions@.len() == r,
                forall|j: int| 0 <= j < r ==> dirty_regions@[j],
            decreases region_count - r,
        {
            dirty_regions.push(true);
            r = r + 1;
        }
        let c = Chunk {
            blocks,
            dirty_regions,
            origin_x,
            origin_z,
            width,
            height,
            depth,
            fallback,
        };
        proof {
            assert forall|i: int, j: int, k: int|
                c.spec_in_bounds(i, j, k) implies c.spec_block_at(i, j, k) == Block::Air by {
                c.lemma_cell_index_bounds(i, j, k);
            }
            assert forall|rx: int, ry: int, rz: int|
                c.spec_region_valid(rx, ry, rz) implies c.spec_dirty_at(rx, ry, rz) by {
                c.lemma_region_index_bounds(rx, ry, rz);
            }
        }
        c
    }

    /// An empty volume with the given extents: every cell is air, every
    /// region starts dirty, the origin is zero and the fallback is off.
    pub fn with_extents(width: usize, height: usize, depth: usize) -> (c: Chunk)
        requires
            1 <= width <= MAX_EXTENT,
            1 <= height <= MAX_EXTENT,
            1 <= depth <= MAX_EXTENT,
            width * height * depth <= 0x7fffffff,
        ensures
            c.wf(),
            c.spec_width() == width,
            c.spec_height() == height,
            c.spec_depth() == depth,
            c.spec_origin_x() == 0,
            c.spec_origin_z() == 0,
            !c.spec_fallback(),
            forall|i: int| 0 <= i < c.blocks_view().len() ==> c.blocks_view()[i] == Block::Air,
            forall|i: int| 0 <= i < c.dirty_view().len() ==> c.dirty_view()[i],
            forall|i: int, j: int, k: int|
                c.spec_in_bounds(i, j, k) ==> c.spec_block_at(i, j, k) == Block::Air,
            forall|rx: int, ry: int, rz: int|
                c.spec_region_valid(rx, ry, rz) ==> c.spec_dirty_at(rx, ry, rz),
    {
        Chunk::build(width, height, depth, 0, 0, false)
    }

    /// The default world volume: full extents, the origin centred so local
    /// indices cover world `[-256, 256)`, and the procedural fallback on.
    pub fn new() -> (c: Chunk)
        ensures
            c.wf(),
            c.spec_width() == CHUNK_WIDTH,
            c.spec_height() == CHUNK_HEIGHT,
            c.spec_depth() == CHUNK_DEPTH,
            c.spec_origin_x() == -256,
            c.spec_origin_z() == -256,
            c.spec_fallback(),
            forall|i: int| 0 <= i < c.blocks_view().len() ==> c.blocks_view()[i] == Block::Air,
            forall|i: int| 0 <= i < c.dirty_view().len() ==> c.dirty_view()[i],
            forall|i: int, j: int, k: int|
                c.spec_in_bounds(i, j, k) ==> c.spec_block_at(i, j, k) == Block::Air,
            forall|rx: int, ry: int, rz: int|
                c.spec_region_valid(rx, ry, rz) ==> c.spec_dirty_at(rx, ry, rz),
    {
        Chunk::build(CHUNK_WIDTH, CHUNK_HEIGHT, CHUNK_DEPTH, -256, -256, true)
    }

    /// Switch the out-of-range procedural fallback on or off.
    pub fn set_fallback(&mut self, on: bool)
        ensures
            final(self).blocks_view() == old(self).blocks_view(),
            final(self).dirty_view() == old(self).dirty_view(),
            final(self).spec_width() == old(self).spec_width(),
            final(self).spec_height() == old(self).spec_height(),
            final(self).spec_depth() == old(self).spec_depth(),
            final(self).spec_origin_x() == old(self).spec_origin_x(),
            final(self).spec_origin_z() == old(self).spec_origin_z(),
            final(self).spec_fallback() == on,
    {
        self.fallback = on;
    }

    /// The world coordinates of local `(0, 0)` along x and z.
    pub fn origin(&self) -> (r: (i32, i32))
        ensures
            r.0 == self.spec_origin_x(),
            r.1 == self.spec_origin_z(),
    {
        (self.origin_x, self.origin_z)
    }

    /// Extent along x.
    pub fn width(&self) -> (r: usize)
        ensures
            r == self.spec_width(),
    {
        self.width
    }

    /// Extent along y.
    pub fn height(&self) -> (r: usize)
        ensures
            r == self.spec_height(),
    {
        self.height
    }

    /// Extent along z.
    pub fn depth(&self) -> (r: usize)
        ensures
            r == self.spec_depth(),
    {
        self.depth
    }

    /// Linear offset of an in-bounds local cell.
    fn index(&self, x: usize, y: usize, z: usize) -> (i: usize)
        requires
            self.wf(),
            self.spec_in_bounds(x as int, y as int, z as int),
        ensures
            i == self.spec_cell_index(x as int, y as int, z as int),
            i < self.blocks_view().len(),
    {
        proof {
            self.lemma_cell_index_bounds(x as int, y as int, z as int);
            assert((z as int) * self.spec_width() <= 16777216 && (y as int)
                * self.spec_width() <= 16777216 && ((y as int) * self.spec_width())
                * self.spec_depth() <= 0x7fffffff) by (nonlinear_arith)
                requires
                    0 <= z as int && (z as int) < self.spec_depth(),
                    self.spec_depth() <= 4096,
                    0 <= y as int && (y as int) < self.spec_height(),
                    self.spec_height() <= 4096,
                    1 <= self.spec_width() <= 4096,
                    self.spec_width() * self.spec_height() * self.spec_depth() <= 0x7fffffff,
            ;
        }
        x + z * self.width + y * self.width * self.depth
    }

    /// Region counts along x, y and z.
    fn region_dims(&self) -> (r: (usize, usize, usize))
        requires
            self.wf(),
        ensures
            r.0 == self.spec_regions_x(),
            r.1 == self.spec_regions_y(),
            r.2 == self.spec_regions_z(),
    {
        ((self.width + 15) / 16, (self.height + 15) / 16, (self.depth + 15) / 16)
    }

    /// Linear offset of a valid region.
    fn region_index(&self, rx: usize, ry: usize, rz: usize) -> (i: usize)
        requires
            self.wf(),
            self.spec_region_valid(rx as int, ry as int, rz as int),
        ensures
            i == self.spec_region_index(rx as int, ry as int, rz as int),
            i < self.dirty_view().len(),
    {
        proof {
            self.lemma_region_index_bounds(rx as int, ry as int, rz as int);
            assert((rz as int) * self.spec_regions_x() <= 66049 && (ry as int)
                * self.spec_regions_x() <= 66049 && ((ry as int) * self.spec_regions_x())
                * self.spec_regions_z() <= 16974593) by (nonlinear_arith)
                requires
                    0 <= rz as int && (rz as int) < self.spec_regions_z(),
                    self.spec_regions_z() <= 257,
                    0 <= ry as int && (ry as int) < self.spec_regions_y(),
                    self.spec_regions_y() <= 257,
                    1 <= self.spec_regions_x() <= 257,
            ;
        }
        let (gx, _, gz) = self.region_dims();
        rx + rz * gx + ry * gx * gz
    }

    /// Mark the region containing the given cell and all its neighbouring
    /// regions dirty.
    fn mark_region_dirty_by_block(&mut self, x: usize, y: usize, z: usize)
        requires
            old(self).wf(),
            old(self).spec_in_bounds(x as int, y as int, z as int),
        ensures
            final(self).wf(),
            final(self).spec_same_shape(*old(self)),
            final(self).blocks_view() == old(self).blocks_view(),
            final(self).dirty_view().len() == old(self).dirty_view().len(),
            forall|rx: int, ry: int, rz: int|
                final(self).spec_region_valid(rx, ry, rz) ==> final(self).spec_dirty_at(rx, ry, rz)
                    == (old(self).spec_dirty_at(rx, ry, rz) || old(self).spec_marks_region(
                    x as int,
                    y as int,
                    z as int,
                    rx,
                    ry,
                    rz,
                )),
    {
        let (gx, gy, gz) = self.region_dims();
        let cx: usize = x / 16;
        let cy: usize = y / 16;
        let cz: usize = z / 16;
        let mut k: usize = 0;
        while k < 27
            invariant
                k <= 27,
                self.wf(),
                self.spec_same_shape(*old(self)),
                self.blocks_view() == old(self).blocks_view(),
                self.dirty_view().len() == old(self).dirty_view().len(),
                gx == self.spec_regions_x(),
                gy == self.spec_regions_y(),
                gz == self.spec_regions_z(),
                cx == x as int / 16,
                cy == y as int / 16,
                cz == z as int / 16,
                x < self.spec_width(),
                y < self.spec_height(),
                z < self.spec_depth(),
                forall|rx: int, ry: int, rz: int|
                    #![trigger self.spec_dirty_at(rx, ry, rz)]
                    self.spec_region_valid(rx, ry, rz) ==> self.spec_dirty_at(rx, ry, rz) == (old(
                        self,
                    ).spec_dirty_at(rx, ry, rz) || (old(self).spec_marks_region(
                        x as int,
                        y as int,
                        z as int,
                        rx,
                        ry,
                        rz,
                    ) && (rx - cx + 1) * 9 + (ry - cy + 1) * 3 + (rz - cz + 1) < k)),
            decreases 27 - k,
        {
            proof {
                assert(9 * (k as int / 9) + 3 * ((k as int / 3) % 3) + (k as int % 3) == k as int
                    && 0 <= k as int / 9 < 3 && 0 <= (k as int / 3) % 3 < 3 && 0 <= (k as int % 3)
                    < 3) by (nonlinear_arith)
                    requires
                        0 <= k as int && (k as int) < 27,
                ;
            }
            let dx: usize = k / 9;
            let dy: usize = (k / 3) % 3;
            let dz: usize = k % 3;
            let nrx: i64 = cx as i64 + dx as i64 - 1;
            let nry: i64 = cy as i64 + dy as i64 - 1;
            let nrz: i64 = cz as i64 + dz as i64 - 1;
            if nrx >= 0 && nry >= 0 && nrz >= 0 && nrx < gx as i64 && nry < gy as i64 && nrz
                < gz as i64 {
                let idx: usize = self.region_index(nrx as usize, nry as usize, nrz as usize);
                let ghost pre_self = *self;
                self.dirty_regions.set(idx, true);
                proof {
                    assert forall|rx: int, ry: int, rz: int|
                        #![trigger self.spec_dirty_at(rx, ry, rz)]
                        self.spec_region_valid(rx, ry, rz) implies self.spec_dirty_at(rx, ry, rz)
                        == (old(self).spec_dirty_at(rx, ry, rz) || (old(self).spec_marks_region(
                        x as int,
                        y as int,
                        z as int,
                        rx,
                        ry,
                        rz,
                    ) && (rx - cx + 1) * 9 + (ry - cy + 1) * 3 + (rz - cz + 1) < k + 1)) by {
                        self.lemma_region_index_bounds(rx, ry, rz);
                        let rank = (rx - cx + 1) * 9 + (ry - cy + 1) * 3 + (rz - cz + 1);
                        assert(pre_self.spec_dirty_at(rx, ry, rz) == (old(self).spec_dirty_at(
                            rx,
                            ry,
                            rz,
                        ) || (old(self).spec_marks_region(x as int, y as int, z as int, rx, ry, rz)
                            && rank < k)));
                        if rx == nrx as int && ry == nry as int && rz == nrz as int {
                            assert(old(self).spec_marks_region(
                                x as int,
                                y as int,
                                z as int,
                                rx,
                                ry,
                                rz,
                            ));
                            assert(rank == k as int);
                        }
                        if !(rx == nrx as int && ry == nry as int && rz == nrz as int) {
                            self.lemma_region_index_injective(
                                rx,
                                ry,
                                rz,
                                nrx as int,
                                nry as int,
                                nrz as int,
                            );
                            if old(self).spec_marks_region(x as int, y as int, z as int, rx, ry, rz)
                                && rank == k as int {
                                assert(rx - cx + 1 == k as int / 9);
                                assert(false);
                            }
                        }
                    }
                }
            } else {
                proof {
                    assert forall|rx: int, ry: int, rz: int|
                        #![trigger self.spec_dirty_at(rx, ry, rz)]
                        self.spec_region_valid(rx, ry, rz) implies self.spec_dirty_at(rx, ry, rz)
                        == (old(self).spec_dirty_at(rx, ry, rz) || (old(self).spec_marks_region(
                        x as int,
                        y as int,
                        z as int,
                        rx,
                        ry,
                        rz,
                    ) && (rx - cx + 1) * 9 + (ry - cy + 1) * 3 + (rz - cz + 1) < k + 1)) by {
                        let rank = (rx - cx + 1) * 9 + (ry - cy + 1) * 3 + (rz - cz + 1);
                        if old(self).spec_marks_region(x as int, y as int, z as int, rx, ry, rz)
                            && rank == k as int {
                            assert(rx == nrx as int && ry == nry as int && rz == nrz as int);
                            assert(false);
                        }
                    }
                }
            }
            k = k + 1;
        }
        proof {
            assert forall|rx: int, ry: int, rz: int|
                #![trigger self.spec_dirty_at(rx, ry, rz)]
                self.spec_region_valid(rx, ry, rz) implies self.spec_dirty_at(rx, ry, rz) == (old(
                self,
            ).spec_dirty_at(rx, ry, rz) || old(self).spec_marks_region(
                x as int,
                y as int,
                z as int,
                rx,
                ry,
                rz,
            )) by {
                if old(self).spec_marks_region(x as int, y as int, z as int, rx, ry, rz) {
                    assert(0 <= (rx - cx + 1) * 9 + (ry - cy + 1) * 3 + (rz - cz + 1) < 27);
                }
            }
        }
    }

    /// Write a local cell. Out-of-range writes are silently ignored; a write
    /// of the value already present changes nothing, not even the dirty
    /// bitmap; a changing write marks the cell's region and its neighbours.
    pub fn set(&mut self, x: usize, y: usize, z: usize, block: Block)
        requires
            old(self).wf(),
        ensures
            final(self).wf(),
            final(self).spec_same_shape(*old(self)),
            final(self).blocks_view().len() == old(self).blocks_view().len(),
            final(self).dirty_view().len() == old(self).dirty_view().len(),
            forall|i: int, j: int, k: int|
                #![trigger final(self).spec_block_at(i, j, k)]
                final(self).spec_in_bounds(i, j, k) ==> final(self).spec_block_at(i, j, k) == (if old(
                    self,
                ).spec_in_bounds(x as int, y as int, z as int) && i == x as int && j == y as int
                    && k == z as int {
                    block
                } else {
                    old(self).spec_block_at(i, j, k)
                }),
            forall|rx: int, ry: int, rz: int|
                #![trigger final(self).spec_dirty_at(rx, ry, rz)]
                final(self).spec_region_valid(rx, ry, rz) ==> final(self).spec_dirty_at(rx, ry, rz)
                    == (old(self).spec_dirty_at(rx, ry, rz) || (old(self).spec_in_bounds(
                    x as int,
                    y as int,
                    z as int,
                ) && old(self).spec_block_at(x as int, y as int, z as int) != block && old(
                    self,
                ).spec_marks_region(x as int, y as int, z as int, rx, ry, rz))),
    {
        if x < self.width && y < self.height && z < self.depth {
            let idx: usize = self.index(x, y, z);
            if self.blocks[idx] != block {
                self.blocks.set(idx, block);
                proof {
                    assert forall|i: int, j: int, k: int|
                        self.spec_in_bounds(i, j, k) && !(i == x as int && j == y as int && k
                            == z as int) implies self.spec_block_at(i, j, k) == old(
                        self,
                    ).spec_block_at(i, j, k) by {
                        self.lemma_cell_index_bounds(i, j, k);
                        self.lemma_cell_index_injective(i, j, k, x as int, y as int, z as int);
                    }
                }
                self.mark_region_dirty_by_block(x, y, z);
            }
        }
    }

    /// Read at world coordinates: never fails, see `spec_get_world`.
    pub fn get_i32(&self, x: i32, y: i32, z: i32) -> (r: Block)
        requires
            self.wf(),
        ensures
            r == self.spec_get_world(x as int, y as int, z as int),
    {
        if y < 0 || y >= self.height as i32 {
            return Block::Air;
        }
        let lx: i64 = x as i64 - self.origin_x as i64;
        let lz: i64 = z as i64 - self.origin_z as i64;
        if lx >= 0 && lz >= 0 && lx < self.width as i64 && lz < self.depth as i64 {
            proof {
                self.lemma_cell_index_bounds(lx as int, y as int, lz as int);
            }
            let idx: usize = self.index(lx as usize, y as usize, lz as usize);
            self.blocks[idx]
        } else if self.fallback {
            crate::terrain::procedural_block_at(x, y as usize, z)
        } else {
            Block::Air
        }
    }

    /// Write at world coordinates: maps through the origin and then behaves
    /// like `set`; outside the addressable extent nothing happens.
    pub fn set_i32(&mut self, x: i32, y: i32, z: i32, block: Block)
        requires
            old(self).wf(),
        ensures
            final(self).wf(),
            final(self).spec_same_shape(*old(self)),
            final(self).blocks_view().len() == old(self).blocks_view().len(),
            final(self).dirty_view().len() == old(self).dirty_view().len(),
            forall|i: int, j: int, k: int|
                #![trigger final(self).spec_block_at(i, j, k)]
                final(self).spec_in_bounds(i, j, k) ==> final(self).spec_block_at(i, j, k) == (if 0
                    <= y as int && (y as int) < old(self).spec_height() && i == x as int - old(
                    self,
                ).spec_origin_x() && j == y as int && k == z as int - old(self).spec_origin_z()
                    && old(self).spec_in_bounds(i, j, k) {
                    block
                } else {
                    old(self).spec_block_at(i, j, k)
                }),
            forall|rx: int, ry: int, rz: int|
                #![trigger final(self).spec_dirty_at(rx, ry, rz)]
                final(self).spec_region_valid(rx, ry, rz) ==> final(self).spec_dirty_at(rx, ry, rz)
                    == (old(self).spec_dirty_at(rx, ry, rz) || (0 <= y as int && (y as int) < old(
                    self,
                ).spec_height() && old(self).spec_in_bounds(
                    x as int - old(self).spec_origin_x(),
                    y as int,
                    z as int - old(self).spec_origin_z(),
                ) && old(self).spec_block_at(
                    x as int - old(self).spec_origin_x(),
                    y as int,
                    z as int - old(self).spec_origin_z(),
                ) != block && old(self).spec_marks_region(
                    x as int - old(self).spec_origin_x(),
                    y as int,
                    z as int - old(self).spec_origin_z(),
                    rx,
                    ry,
                    rz,
                ))),
    {
        if y < 0 || y >= self.height as i32 {
            return ;
        }
        let lx: i64 = x as i64 - self.origin_x as i64;
        let lz: i64 = z as i64 - self.origin_z as i64;
        if lx >= 0 && lz >= 0 && lx < self.width as i64 && lz < self.depth as i64 {
            self.set(lx as usize, y as usize, lz as usize, block);
        }
    }

    /// Drain the dirty bitmap: returns each dirty region's coordinate triple
    /// exactly once and clears every bit.
    pub fn take_dirty_regions(&mut self) -> (out: Vec<(usize, usize, usize)>)
        requires
            old(self).wf(),
        ensures
            final(self).wf(),
            final(self).spec_same_shape(*old(self)),
            final(self).blocks_view() == old(self).blocks_view(),
            final(self).dirty_view().len() == old(self).dirty_view().len(),
            forall|rx: int, ry: int, rz: int|
                final(self).spec_region_valid(rx, ry, rz) ==> !final(self).spec_dirty_at(
                    rx,
                    ry,
                    rz,
                ),
            forall|i: int|
                0 <= i < out@.len() ==> (old(self).spec_region_valid(
                    out@[i].0 as int,
                    out@[i].1 as int,
                    out@[i].2 as int,
                ) && old(self).spec_dirty_at(out@[i].0 as int, out@[i].1 as int, out@[i].2 as int)),
            forall|rx: int, ry: int, rz: int|
                old(self).spec_region_valid(rx, ry, rz) && old(self).spec_dirty_at(rx, ry, rz)
                    ==> out@.contains((rx as usize, ry as usize, rz as usize)),
            forall|i: int, j: int| 0 <= i < j < out@.len() ==> out@[i] != out@[j],
    {
        let (gx, gy, gz) = self.region_dims();
        let ghost orig = *self;
        let mut out: Vec<(usize, usize, usize)> = Vec::new();
        let mut ry: usize = 0;
        while ry < gy
            invariant
                ry <= gy,
                self.wf(),
                self.spec_same_shape(orig),
                self.blocks_view() == orig.blocks_view(),
                self.dirty_view().len() == orig.dirty_view().len(),
                gx == self.spec_regions_x(),
                gy == self.spec_regions_y(),
                gz == self.spec_regions_z(),
                forall|ax: int, ay: int, az: int|
                    #![trigger self.spec_dirty_at(ax, ay, az)]
                    self.spec_region_valid(ax, ay, az) ==> self.spec_dirty_at(ax, ay, az) == (
                    orig.spec_dirty_at(ax, ay, az) && ay >= ry),
                forall|i: int|
                    0 <= i < out@.len() ==> (orig.spec_region_valid(
                        out@[i].0 as int,
                        out@[i].1 as int,
                        out@[i].2 as int,
                    ) && orig.spec_dirty_at(out@[i].0 as int, out@[i].1 as int, out@[i].2 as int)
                        && out@[i].1 < ry),
                forall|ax: int, ay: int, az: int|
                    orig.spec_region_valid(ax, ay, az) && orig.spec_dirty_at(ax, ay, az) && ay < ry
                        ==> out@.contains((ax as usize, ay as usize, az as usize)),
                forall|i: int, j: int| 0 <= i < j < out@.len() ==> out@[i] != out@[j],
            decreases gy - ry,
        {
            let mut rz: usize = 0;
            while rz < gz
                invariant
                    ry < gy,
                    rz <= gz,
                    self.wf(),
                    self.spec_same_shape(orig),
                    self.blocks_view() == orig.blocks_view(),
                    self.dirty_view().len() == orig.dirty_view().len(),
                    gx == self.spec_regions_x(),
                    gy == self.spec_regions_y(),
                    gz == self.spec_regions_z(),
                    forall|ax: int, ay: int, az: int|
                        #![trigger self.spec_dirty_at(ax, ay, az)]
                        self.spec_region_valid(ax, ay, az) ==> self.spec_dirty_at(ax, ay, az) == (
                        orig.spec_dirty_at(ax, ay, az) && (ay > ry || (ay == ry && az >= rz))),
                    forall|i: int|
                        0 <= i < out@.len() ==> (orig.spec_region_valid(
                            out@[i].0 as int,
                            out@[i].1 as int,
                            out@[i].2 as int,
                        ) && orig.spec_dirty_at(
                            out@[i].0 as int,
                            out@[i].1 as int,
                            out@[i].2 as int,
                        ) && (out@[i].1 < ry || (out@[i].1 == ry && out@[i].2 < rz))),
                    forall|ax: int, ay: int, az: int|
                        orig.spec_region_valid(ax, ay, az) && orig.spec_dirty_at(ax, ay, az) && (ay
                            < ry || (ay == ry && az < rz)) ==> out@.contains(
                            (ax as usize, ay as usize, az as usize),
                        ),
                    forall|i: int, j: int| 0 <= i < j < out@.len() ==> out@[i] != out@[j],
                decreases gz - rz,
            {
                let mut rx: usize = 0;
                while rx < gx
                    invariant
                        ry < gy,
                        rz < gz,
                        rx <= gx,
                        self.wf(),
                        self.spec_same_shape(orig),
                        self.blocks_view() == orig.blocks_view(),
                        self.dirty_view().len() == orig.dirty_view().len(),
                        gx == self.spec_regions_x(),
                        gy == self.spec_regions_y(),
                        gz == self.spec_regions_z(),
                        forall|ax: int, ay: int, az: int|
                            #![trigger self.spec_dirty_at(ax, ay, az)]
                            self.spec_region_valid(ax, ay, az) ==> self.spec_dirty_at(ax, ay, az)
                                == (orig.spec_dirty_at(ax, ay, az) && (ay > ry || (ay == ry && (az
                                > rz || (az == rz && ax >= rx))))),
                        forall|i: int|
                            0 <= i < out@.len() ==> (orig.spec_region_valid(
                                out@[i].0 as int,
                                out@[i].1 as int,
                                out@[i].2 as int,
                            ) && orig.spec_dirty_at(
                                out@[i].0 as int,
                                out@[i].1 as int,
                                out@[i].2 as int,
                            ) && (out@[i].1 < ry || (out@[i].1 == ry && (out@[i].2 < rz || (
                            out@[i].2 == rz && out@[i].0 < rx))))),
                        forall|ax: int, ay: int, az: int|
                            orig.spec_region_valid(ax, ay, az) && orig.spec_dirty_at(ax, ay, az)
                                && (ay < ry || (ay == ry && (az < rz || (az == rz && ax < rx))))
                                ==> out@.contains((ax as usize, ay as usize, az as usize)),
                        forall|i: int, j: int| 0 <= i < j < out@.len() ==> out@[i] != out@[j],
                    decreases gx - rx,
                {
                    let idx: usize = self.region_index(rx, ry, rz);
                    let was_dirty: bool = self.dirty_regions[idx];
                    let ghost pre_self = *self;
                    let ghost pre_out = out@;
                    if was_dirty {
                        self.dirty_regions.set(idx, false);
                        out.push((rx, ry, rz));
                    }
                    proof {
                        assert forall|ax: int, ay: int, az: int|
                            #![trigger self.spec_dirty_at(ax, ay, az)]
                            self.spec_region_valid(ax, ay, az) implies self.spec_dirty_at(
                            ax,
                            ay,
                            az,
                        ) == (orig.spec_dirty_at(ax, ay, az) && (ay > ry || (ay == ry && (az > rz
                            || (az == rz && ax >= rx + 1))))) by {
                            assert(pre_self.spec_dirty_at(ax, ay, az) == (orig.spec_dirty_at(
                                ax,
                                ay,
                                az,
                            ) && (ay > ry || (ay == ry && (az > rz || (az == rz && ax >= rx))))));
                            self.lemma_region_index_bounds(ax, ay, az);
                            if !(ax == rx as int && ay == ry as int && az == rz as int) {
                                self.lemma_region_index_injective(
                                    ax,
                                    ay,
                                    az,
                                    rx as int,
                                    ry as int,
                                    rz as int,
                                );
                            }
                        }
                        assert(pre_self.spec_dirty_at(rx as int, ry as int, rz as int) == (
                        orig.spec_dirty_at(rx as int, ry as int, rz as int)));
                        assert forall|i: int|
                            0 <= i < out@.len() implies (orig.spec_region_valid(
                            out@[i].0 as int,
                            out@[i].1 as int,
                            out@[i].2 as int,
                        ) && orig.spec_dirty_at(out@[i].0 as int, out@[i].1 as int, out@[i].2 as int)
                            && (out@[i].1 < ry || (out@[i].1 == ry && (out@[i].2 < rz || (out@[i].2
                            == rz && out@[i].0 < rx + 1))))) by {
                            if i < pre_out.len() {
                                assert(out@[i] == pre_out[i]);
                            } else {
                                assert(out@[i] == (rx, ry, rz));
                            }
                        }
                        assert forall|ax: int, ay: int, az: int|
                            orig.spec_region_valid(ax, ay, az) && orig.spec_dirty_at(ax, ay, az)
                                && (ay < ry || (ay == ry && (az < rz || (az == rz && ax < rx
                                + 1)))) implies out@.contains(
                            (ax as usize, ay as usize, az as usize),
                        ) by {
                            let t = (ax as usize, ay as usize, az as usize);
                            if ay < ry || (ay == ry && (az < rz || (az == rz && ax < rx))) {
                                assert(pre_out.contains(t));
                                let i = choose|i: int|
                                    0 <= i < pre_out.len() && pre_out[i] == t;
                                assert(out@[i] == t);
                            } else {
                                assert(ax == rx as int && ay == ry as int && az == rz as int);
                                assert(was_dirty);
                                assert(out@[out@.len() - 1] == t);
                            }
                        }
                    }
                    rx = rx + 1;
                }
                proof {
                    assert forall|ax: int, ay: int, az: int|
                        self.spec_region_valid(ax, ay, az) implies self.spec_dirty_at(ax, ay, az)
                        == (orig.spec_dirty_at(ax, ay, az) && (ay > ry || (ay == ry && az >= rz
                        + 1))) by {
                        assert(self.spec_dirty_at(ax, ay, az) == (orig.spec_dirty_at(ax, ay, az)
                            && (ay > ry || (ay == ry && (az > rz || (az == rz && ax >= gx))))));
                    }
                }
                rz = rz + 1;
            }
            proof {
                assert forall|ax: int, ay: int, az: int|
                    self.spec_region_valid(ax, ay, az) implies self.spec_dirty_at(ax, ay, az) == (
                orig.spec_dirty_at(ax, ay, az) && ay >= ry + 1) by {
                    assert(self.spec_dirty_at(ax, ay, az) == (orig.spec_dirty_at(ax, ay, az) && (ay
                        > ry || (ay == ry && az >= gz))));
                }
            }
            ry = ry + 1;
        }
        proof {
            assert forall|rx: int, ry: int, rz: int|
                self.spec_region_valid(rx, ry, rz) implies !self.spec_dirty_at(rx, ry, rz) by {
                assert(self.spec_dirty_at(rx, ry, rz) == (orig.spec_dirty_at(rx, ry, rz) && ry
                    >= gy));
            }
        }
        out
    }

    /// Upper clamp applied to generated surface heights inside this volume,
    /// keeping a little head-room under the ceiling.
    pub open spec fn spec_surface_cap(self) -> int {
        if self.spec_height() >= 10 {
            self.spec_height() - 2
        } else {
            8
        }
    }

    /// Write one in-bounds cell without touching the dirty bitmap: the bulk
    /// generation pass rebuilds the whole bitmap afterwards.
    fn put_cell(&mut self, x: usize, y: usize, z: usize, block: Block)
        requires
            old(self).wf(),
            old(self).spec_in_bounds(x as int, y as int, z as int),
        ensures
            final(self).wf(),
            final(self).spec_same_shape(*old(self)),
            final(self).dirty_view() == old(self).dirty_view(),
            forall|i: int, j: int, k: int|
                #![trigger final(self).spec_block_at(i, j, k)]
                final(self).spec_in_bounds(i, j, k) ==> final(self).spec_block_at(i, j, k) == (
                if i == x as int && j == y as int && k == z as int {
                    block
                } else {
                    old(self).spec_block_at(i, j, k)
                }),
    {
        let idx: usize = self.index(x, y, z);
        self.blocks.set(idx, block);
        proof {
            assert forall|i: int, j: int, k: int|
                #![trigger self.spec_block_at(i, j, k)]
                self.spec_in_bounds(i, j, k) && !(i == x as int && j == y as int && k
                    == z as int) implies self.spec_block_at(i, j, k) == old(self).spec_block_at(
                i,
                j,
                k,
            ) by {
                self.lemma_cell_index_bounds(i, j, k);
                self.lemma_cell_index_injective(i, j, k, x as int, y as int, z as int);
            }
        }
    }

    /// Base generation pass: fill every cell with its deterministic terrain
    /// block for the current origin.
    fn fill_terrain(&mut self)
        requires
            old(self).wf(),
        ensures
            final(self).wf(),
            final(self).spec_same_shape(*old(self)),
            final(self).dirty_view() == old(self).dirty_view(),
            forall|i: int, j: int, k: int|
                #![trigger final(self).spec_block_at(i, j, k)]
                final(self).spec_in_bounds(i, j, k) ==> final(self).spec_block_at(i, j, k)
                    == spec_generated_block(
                    old(self).spec_origin_x(),
                    old(self).spec_origin_z(),
                    old(self).spec_surface_cap(),
                    i,
                    j,
                    k,
                ),
    {
        let ghost base = *self;
        let w: usize = self.width();
        let h: usize = self.height();
        let d: usize = self.depth();
        let (ox, oz) = self.origin();
        let cap: usize = if h >= 10 {
            h - 2
        } else {
            8
        };
        let mut x: usize = 0;
        while x < w
            invariant
                x <= w,
                self.wf(),
                self.spec_same_shape(base),
                self.dirty_view() == base.dirty_view(),
                w == self.spec_width(),
                h == self.spec_height(),
                d == self.spec_depth(),
                ox as int == self.spec_origin_x(),
                oz as int == self.spec_origin_z(),
                cap as int == self.spec_surface_cap(),
                forall|i: int, j: int, k: int|
                    #![trigger self.spec_block_at(i, j, k)]
                    self.spec_in_bounds(i, j, k) ==> self.spec_block_at(i, j, k) == (if i
                        < x as int {
                        spec_generated_block(ox as int, oz as int, cap as int, i, j, k)
                    } else {
                        base.spec_block_at(i, j, k)
                    }),
            decreases w - x,
        {
            let wx: i32 = (ox as i64 + x as i64) as i32;
            let mut z: usize = 0;
            while z < d
                invariant
                    x < w,
                    z <= d,
                    self.wf(),
                    self.spec_same_shape(base),
                    self.dirty_view() == base.dirty_view(),
                    w == self.spec_width(),
                    h == self.spec_height(),
                    d == self.spec_depth(),
                    ox as int == self.spec_origin_x(),
                    oz as int == self.spec_origin_z(),
                    cap as int == self.spec_surface_cap(),
                    wx as int == ox as int + x as int,
                    forall|i: int, j: int, k: int|
                        #![trigger self.spec_block_at(i, j, k)]
                        self.spec_in_bounds(i, j, k) ==> self.spec_block_at(i, j, k) == (if i
                            < x as int || (i == x as int && k < z as int) {
                            spec_generated_block(ox as int, oz as int, cap as int, i, j, k)
                        } else {
                            base.spec_block_at(i, j, k)
                        }),
                decreases d - z,
            {
                let wz: i32 = (oz as i64 + z as i64) as i32;
                let biome = crate::terrain::biome_at(wx, wz);
                let h0: usize = crate::terrain::terrain_height(wx, wz, biome);
                let hh: usize = if h0 > cap {
                    cap
                } else {
                    h0
                };
                let mut y: usize = 0;
                while y < h
                    invariant
                        x < w,
                        z < d,
                        y <= h,
                        self.wf(),
                        self.spec_same_shape(base),
                        self.dirty_view() == base.dirty_view(),
                        w == self.spec_width(),
                        h == self.spec_height(),
                        d == self.spec_depth(),
                        ox as int == self.spec_origin_x(),
                        oz as int == self.spec_origin_z(),
                        cap as int == self.spec_surface_cap(),
                        wx as int == ox as int + x as int,
                        wz as int == oz as int + z as int,
                        hh <= 100000,
                        biome == crate::terrain::spec_biome_at(wx as int, wz as int),
                        hh as int == ({
                            let h0s = crate::terrain::spec_terrain_height(
                                wx as int,
                                wz as int,
                                biome,
                            );
                            if h0s > cap as int {
                                cap as int
                            } else {
                                h0s
                            }
                        }),
                        forall|i: int, j: int, k: int|
                            #![trigger self.spec_block_at(i, j, k)]
                            self.spec_in_bounds(i, j, k) ==> self.spec_block_at(i, j, k) == (if i
                                < x as int || (i == x as int && (k < z as int || (k == z as int
                                && j < y as int))) {
                                spec_generated_block(ox as int, oz as int, cap as int, i, j, k)
                            } else {
                                base.spec_block_at(i, j, k)
                            }),
                    decreases h - y,
                {
                    let b = crate::terrain::terrain_block_at(
                        wx,
                        y,
                        wz,
                        biome,
                        hh,
                        crate::terrain::SEA_LEVEL,
                    );
                    self.put_cell(x, y, z, b);
                    y = y + 1;
                }
                z = z + 1;
            }
            x = x + 1;
        }
    }

    /// Mark every region dirty.
    fn fill_all_dirty(&mut self)
        requires
            old(self).wf(),
        ensures
            final(self).wf(),
            final(self).spec_same_shape(*old(self)),
            final(self).blocks_view() == old(self).blocks_view(),
            forall|rx: int, ry: int, rz: int|
                #![trigger final(self).spec_dirty_at(rx, ry, rz)]
                final(self).spec_region_valid(rx, ry, rz) ==> final(self).spec_dirty_at(
                    rx,
                    ry,
                    rz,
                ),
    {
        let n: usize = self.dirty_regions.len();
        let mut r: usize = 0;
        while r < n
            invariant
                r <= n,
                self.wf(),
                self.spec_same_shape(*old(self)),
                self.blocks_view() == old(self).blocks_view(),
                n == self.dirty_view().len(),
                forall|i: int| 0 <= i < r ==> self.dirty_view()[i],
            decreases n - r,
        {
            self.dirty_regions.set(r, true);
            r = r + 1;
        }
        proof {
            assert forall|rx: int, ry: int, rz: int|
                self.spec_region_valid(rx, ry, rz) implies self.spec_dirty_at(rx, ry, rz) by {
                self.lemma_region_index_bounds(rx, ry, rz);
            }
        }
    }


    /// What the house stamp writes at a local cell, if anything: a
    /// cobblestone floor, brick walls with glass window cut-outs, a plank
    /// roof and a hollow interior over the box, clamped to the volume, with
    /// a two-cell door gap punched into the front wall last.
    pub open spec fn spec_house_write(
        self,
        x0: int,
        y0: int,
        z0: int,
        w: int,
        h: int,
        d: int,
        i: int,
        j: int,
        k: int,
    ) -> Option<Block> {
        let x_end = if x0 + w <= self.spec_width() - 1 {
            x0 + w
        } else {
            self.spec_width() - 1
        };
        let z_end = if z0 + d <= self.spec_depth() - 1 {
            z0 + d
        } else {
            self.spec_depth() - 1
        };
        let y_end = if y0 + h <= self.spec_height() - 1 {
            y0 + h
        } else {
            self.spec_height() - 1
        };
        let door_x = x0 + w / 2;
        if i == door_x && k == z0 && (j == y0 + 1 || j == y0 + 2) {
            Option::Some(Block::Air)
        } else if x0 <= i < x_end && z0 <= k < z_end && y0 <= j < y_end {
            Option::Some(spec_house_cell(x0, y0, z0, w, h, d, i, j, k))
        } else {
            Option::None
        }
    }

    /// The highest cell at or below `y` of the world column holding anything
    /// other than air or water, or -1 if there is none: the seat of a tree.
    pub open spec fn spec_tree_seat(self, wx: int, wz: int, y: int) -> int
        decreases y + 1,
    {
        if y < 0 {
            -1
        } else if self.spec_get_world(wx, y, wz) != Block::Air && self.spec_get_world(wx, y, wz)
            != Block::Water {
            y
        } else {
            self.spec_tree_seat(wx, wz, y - 1)
        }
    }

    /// What the tree stamp writes at a local cell, if anything: a wood trunk
    /// seeded on the ground of the column, and leaves filling the cells of
    /// the canopy box around the trunk top that were empty beforehand.
    pub open spec fn spec_tree_write(self, x: int, z: int, i: int, j: int, k: int) -> Option<
        Block,
    > {
        if x >= self.spec_width() || z >= self.spec_depth() {
            Option::None
        } else {
            let seat = self.spec_tree_seat(
                self.spec_origin_x() + x,
                self.spec_origin_z() + z,
                self.spec_height() - 1,
            );
            if seat < 0 {
                Option::None
            } else {
                let ground = seat + 1;
                let trunk_h = 5 + (x + z) % 3;
                let trunk_end = if ground + trunk_h <= self.spec_height() {
                    ground + trunk_h
                } else {
                    self.spec_height()
                };
                if i == x && k == z && ground <= j < trunk_end {
                    Option::Some(Block::Wood)
                } else {
                    let top = if ground + trunk_h <= self.spec_height() - 1 {
                        ground + trunk_h
                    } else {
                        self.spec_height() - 1
                    };
                    let lx0 = if x >= 2 {
                        x - 2
                    } else {
                        0
                    };
                    let lx1 = if x + 2 <= self.spec_width() - 1 {
                        x + 2
                    } else {
                        self.spec_width() - 1
                    };
                    let lz0 = if z >= 2 {
                        z - 2
                    } else {
                        0
                    };
                    let lz1 = if z + 2 <= self.spec_depth() - 1 {
                        z + 2
                    } else {
                        self.spec_depth() - 1
                    };
                    let ly0 = if top >= 2 {
                        top - 2
                    } else {
                        0
                    };
                    let ly1 = if top + 1 <= self.spec_height() - 1 {
                        top + 1
                    } else {
                        self.spec_height() - 1
                    };
                    if lx0 <= i <= lx1 && ly0 <= j <= ly1 && lz0 <= k <= lz1
                        && self.spec_block_at(i, j, k) == Block::Air {
                        Option::Some(Block::Leaf)
                    } else {
                        Option::None
                    }
                }
            }
        }
    }

    /// What the target stamp writes at a local cell, if anything: a
    /// five-by-five vertical board of target blocks centred on the given
    /// cell, clamped to the volume, at one fixed depth.
    pub open spec fn spec_target_write(
        self,
        cx: int,
        cy: int,
        cz: int,
        i: int,
        j: int,
        k: int,
    ) -> Option<Block> {
        if cx < 2 || cy < 2 || cz < 2 {
            Option::None
        } else {
            let zt = if cz <= self.spec_depth() - 1 {
                cz
            } else {
                self.spec_depth() - 1
            };
            let x_end = if cx + 2 <= self.spec_width() - 1 {
                cx + 2
            } else {
                self.spec_width() - 1
            };
            let y_end = if cy + 2 <= self.spec_height() - 1 {
                cy + 2
            } else {
                self.spec_height() - 1
            };
            if cx - 2 <= i <= x_end && cy - 2 <= j <= y_end && k == zt {
                Option::Some(Block::Target)
            } else {
                Option::None
            }
        }
    }

    /// The highest cell at or below `y` of the world column holding sand or
    /// red sand, or -1 if there is none: the seat of a cactus.
    pub open spec fn spec_sandy_top(self, wx: int, wz: int, y: int) -> int
        decreases y + 1,
    {
        if y < 0 {
            -1
        } else if self.spec_get_world(wx, y, wz) == Block::Sand || self.spec_get_world(wx, y, wz)
            == Block::RedSand {
            y
        } else {
            self.spec_sandy_top(wx, wz, y - 1)
        }
    }

    /// What the cactus stamp writes at a local cell, if anything: a short
    /// stack of cactus blocks on the sandy ground of the column, of height
    /// two to four decided by a positional hash.
    pub open spec fn spec_cactus_write(self, x: int, z: int, i: int, j: int, k: int) -> Option<
        Block,
    > {
        if x >= self.spec_width() || z >= self.spec_depth() {
            Option::None
        } else {
            let seat = self.spec_sandy_top(
                self.spec_origin_x() + x,
                self.spec_origin_z() + z,
                self.spec_height() - 1,
            );
            if seat < 0 {
                Option::None
            } else {
                let ground = seat + 1;
                let stack = 2 + (x * 17 + z * 11) % 3;
                let top = if ground + stack <= self.spec_height() {
                    ground + stack
                } else {
                    self.spec_height()
                };
                if i == x && k == z && ground <= j < top {
                    Option::Some(Block::Cactus)
                } else {
                    Option::None
                }
            }
        }
    }

    /// Stamp a rectangular house, exactly as `spec_house_write` says:
    /// cobblestone floor, brick walls with glass window cut-outs, a plank
    /// roof, a hollow interior and a two-cell door gap; every other cell is
    /// untouched.
    fn add_house(&mut self, x0: usize, y0: usize, z0: usize, w: usize, h: usize, d: usize)
        requires
            old(self).wf(),
            1 <= w,
            1 <= h,
            1 <= d,
            x0 + w <= 100000,
            y0 + h + 2 <= 100000,
            z0 + d <= 100000,
        ensures
            final(self).wf(),
            final(self).spec_same_shape(*old(self)),
            forall|i: int, j: int, k: int|
                #![trigger final(self).spec_block_at(i, j, k)]
                final(self).spec_in_bounds(i, j, k) ==> final(self).spec_block_at(i, j, k)
                    == (match old(self).spec_house_write(
                    x0 as int,
                    y0 as int,
                    z0 as int,
                    w as int,
                    h as int,
                    d as int,
                    i,
                    j,
                    k,
                ) {
                    Option::Some(b) => b,
                    Option::None => old(self).spec_block_at(i, j, k),
                }),
    {
        let ghost orig = *self;
        let x_end: usize = if x0 + w <= self.width() - 1 {
            x0 + w
        } else {
            self.width() - 1
        };
        let z_end: usize = if z0 + d <= self.depth() - 1 {
            z0 + d
        } else {
            self.depth() - 1
        };
        let y_end: usize = if y0 + h <= self.height() - 1 {
            y0 + h
        } else {
            self.height() - 1
        };
        let mut x: usize = x0;
        while x < x_end
            invariant
                self.wf(),
                self.spec_same_shape(orig),
                x0 <= x && (x <= x_end || x == x0),
                1 <= w && 1 <= h && 1 <= d,
                x0 + w <= 100000 && y0 + h + 2 <= 100000 && z0 + d <= 100000,
                x_end as int == (if x0 + w <= orig.spec_width() - 1 {
                    x0 + w
                } else {
                    orig.spec_width() - 1
                }),
                z_end as int == (if z0 + d <= orig.spec_depth() - 1 {
                    z0 + d
                } else {
                    orig.spec_depth() - 1
                }),
                y_end as int == (if y0 + h <= orig.spec_height() - 1 {
                    y0 + h
                } else {
                    orig.spec_height() - 1
                }),
                forall|i: int, j: int, k: int|
                    #![trigger self.spec_block_at(i, j, k)]
                    self.spec_in_bounds(i, j, k) ==> self.spec_block_at(i, j, k) == (if x0 <= i
                        < x && z0 <= k < z_end && y0 <= j < y_end {
                        spec_house_cell(
                            x0 as int,
                            y0 as int,
                            z0 as int,
                            w as int,
                            h as int,
                            d as int,
                            i,
                            j,
                            k,
                        )
                    } else {
                        orig.spec_block_at(i, j, k)
                    }),
            decreases x_end - x,
        {
            let mut z: usize = z0;
            while z < z_end
                invariant
                    self.wf(),
                    self.spec_same_shape(orig),
                    x0 <= x < x_end,
                    z0 <= z && (z <= z_end || z == z0),
                    1 <= w && 1 <= h && 1 <= d,
                    x0 + w <= 100000 && y0 + h + 2 <= 100000 && z0 + d <= 100000,
                    x_end as int == (if x0 + w <= orig.spec_width() - 1 {
                        x0 + w
                    } else {
                        orig.spec_width() - 1
                    }),
                    z_end as int == (if z0 + d <= orig.spec_depth() - 1 {
                        z0 + d
                    } else {
                        orig.spec_depth() - 1
                    }),
                    y_end as int == (if y0 + h <= orig.spec_height() - 1 {
                        y0 + h
                    } else {
                        orig.spec_height() - 1
                    }),
                    forall|i: int, j: int, k: int|
                        #![trigger self.spec_block_at(i, j, k)]
                        self.spec_in_bounds(i, j, k) ==> self.spec_block_at(i, j, k) == (if (x0
                            <= i < x && z0 <= k < z_end && y0 <= j < y_end) || (i == x && z0 <= k
                            < z && y0 <= j < y_end) {
                            spec_house_cell(
                                x0 as int,
                                y0 as int,
                                z0 as int,
                                w as int,
                                h as int,
                                d as int,
                                i,
                                j,
                                k,
                            )
                        } else {
                            orig.spec_block_at(i, j, k)
                        }),
                decreases z_end - z,
            {
                let mut y: usize = y0;
                while y < y_end
                    invariant
                        self.wf(),
                        self.spec_same_shape(orig),
                        x0 <= x < x_end,
                        z0 <= z < z_end,
                        y0 <= y && (y <= y_end || y == y0),
                        1 <= w && 1 <= h && 1 <= d,
                        x0 + w <= 100000 && y0 + h + 2 <= 100000 && z0 + d <= 100000,
                        x_end as int == (if x0 + w <= orig.spec_width() - 1 {
                            x0 + w
                        } else {
                            orig.spec_width() - 1
                        }),
                        z_end as int == (if z0 + d <= orig.spec_depth() - 1 {
                            z0 + d
                        } else {
                            orig.spec_depth() - 1
                        }),
                        y_end as int == (if y0 + h <= orig.spec_height() - 1 {
                            y0 + h
                        } else {
                            orig.spec_height() - 1
                        }),
                        forall|i: int, j: int, k: int|
                            #![trigger self.spec_block_at(i, j, k)]
                            self.spec_in_bounds(i, j, k) ==> self.spec_block_at(i, j, k) == (if (
                            x0 <= i < x && z0 <= k < z_end && y0 <= j < y_end) || (i == x && z0
                                <= k < z && y0 <= j < y_end) || (i == x && k == z && y0 <= j < y) {
                                spec_house_cell(
                                    x0 as int,
                                    y0 as int,
                                    z0 as int,
                                    w as int,
                                    h as int,
                                    d as int,
                                    i,
                                    j,
                                    k,
                                )
                            } else {
                                orig.spec_block_at(i, j, k)
                            }),
                    decreases y_end - y,
                {
                    let wall: bool = x == x0 || x == x0 + w - 1 || z == z0 || z == z0 + d - 1;
                    let roof: bool = y == y0 + h - 1;
                    let floor: bool = y == y0;
                    if roof {
                        self.set(x, y, z, Block::Planks);
                    } else if floor {
                        self.set(x, y, z, Block::Cobblestone);
                    } else if wall {
                        let is_window: bool = y > y0 + 1 && y < y0 + h - 2 && ((x == x0 || x == x0
                            + w - 1) && z == z0 + d / 2 || (z == z0 || z == z0 + d - 1) && x == x0
                            + w / 2);
                        if is_window {
                            self.set(x, y, z, Block::Glass);
                        } else {
                            self.set(x, y, z, Block::Bricks);
                        }
                    } else {
                        self.set(x, y, z, Block::Air);
                    }
                    y = y + 1;
                }
                z = z + 1;
            }
            x = x + 1;
        }
        let door_x: usize = x0 + w / 2;
        self.set(door_x, y0 + 1, z0, Block::Air);
        self.set(door_x, y0 + 2, z0, Block::Air);
        proof {
            assert forall|i: int, j: int, k: int|
                #![trigger self.spec_block_at(i, j, k)]
                self.spec_in_bounds(i, j, k) implies self.spec_block_at(i, j, k) == (match orig.spec_house_write(
                x0 as int,
                y0 as int,
                z0 as int,
                w as int,
                h as int,
                d as int,
                i,
                j,
                k,
            ) {
                Option::Some(b) => b,
                Option::None => orig.spec_block_at(i, j, k),
            }) by {
                assert(self.spec_block_at(i, j, k) == (if i == door_x as int && k == z0 as int
                    && (j == y0 + 1 || j == y0 + 2) && self.spec_in_bounds(i, j, k) {
                    Block::Air
                } else if x0 <= i < x_end && z0 <= k < z_end && y0 <= j < y_end {
                    spec_house_cell(
                        x0 as int,
                        y0 as int,
                        z0 as int,
                        w as int,
                        h as int,
                        d as int,
                        i,
                        j,
                        k,
                    )
                } else {
                    orig.spec_block_at(i, j, k)
                }));
            }
        }
    }

    /// Stamp a tree at the given local column, exactly as `spec_tree_write`
    /// says: a wood trunk seeded on the ground, and a leaf canopy filling
    /// only cells that were empty; every other cell is untouched.
    #[verifier::rlimit(100)]
    fn add_tree(&mut self, x: usize, z: usize)
        requires
            old(self).wf(),
            x <= 100000,
            z <= 100000,
        ensures
            final(self).wf(),
            final(self).spec_same_shape(*old(self)),
            forall|i: int, j: int, k: int|
                #![trigger final(self).spec_block_at(i, j, k)]
                final(self).spec_in_bounds(i, j, k) ==> final(self).spec_block_at(i, j, k)
                    == (match old(self).spec_tree_write(x as int, z as int, i, j, k) {
                    Option::Some(b) => b,
                    Option::None => old(self).spec_block_at(i, j, k),
                }),
    {
        let ghost orig = *self;
        if x >= self.width() || z >= self.depth() {
            return ;
        }
        let (ox, oz) = self.origin();
        let wx: i32 = (ox as i64 + x as i64) as i32;
        let wz: i32 = (oz as i64 + z as i64) as i32;
        let mut ground: usize = 0;
        let mut found: bool = false;
        let mut yy: usize = self.height();
        while yy > 0 && !found
            invariant
                self.wf(),
                *self == orig,
                yy <= self.spec_height(),
                wx as int == ox as int + x as int,
                wz as int == oz as int + z as int,
                ox as int == self.spec_origin_x(),
                oz as int == self.spec_origin_z(),
                !found ==> self.spec_tree_seat(wx as int, wz as int, self.spec_height() - 1)
                    == self.spec_tree_seat(wx as int, wz as int, yy as int - 1),
                found ==> (ground as int == self.spec_tree_seat(
                    wx as int,
                    wz as int,
                    self.spec_height() - 1,
                ) + 1 && 1 <= ground <= self.spec_height()),
            decreases yy,
        {
            yy = yy - 1;
            let b = self.get_i32(wx, yy as i32, wz);
            if b != Block::Air && b != Block::Water {
                ground = yy + 1;
                found = true;
            }
        }
        if !found {
            proof {
                assert(self.spec_tree_seat(wx as int, wz as int, self.spec_height() - 1) == -1);
            }
            return ;
        }
        let trunk_h: usize = 5 + ((x + z) % 3);
        let trunk_end: usize = if ground + trunk_h <= self.height() {
            ground + trunk_h
        } else {
            self.height()
        };
        let mut y: usize = ground;
        while y < trunk_end
            invariant
                self.wf(),
                self.spec_same_shape(orig),
                ground <= y <= trunk_end,
                trunk_end <= self.spec_height(),
                ground as int == orig.spec_tree_seat(
                    ox as int + x as int,
                    oz as int + z as int,
                    orig.spec_height() - 1,
                ) + 1,
                1 <= ground,
                x < orig.spec_width(),
                z < orig.spec_depth(),
                x <= 100000 && z <= 100000,
                ox as int == orig.spec_origin_x(),
                oz as int == orig.spec_origin_z(),
                trunk_h as int == 5 + (x as int + z as int) % 3,
                trunk_end as int == (if ground + trunk_h <= orig.spec_height() {
                    ground + trunk_h
                } else {
                    orig.spec_height()
                }),
                forall|i: int, j: int, k: int|
                    #![trigger self.spec_block_at(i, j, k)]
                    self.spec_in_bounds(i, j, k) ==> self.spec_block_at(i, j, k) == (if i
                        == x as int && k == z as int && ground <= j < y {
                        Block::Wood
                    } else {
                        orig.spec_block_at(i, j, k)
                    }),
            decreases trunk_end - y,
        {
            self.set(x, y, z, Block::Wood);
            y = y + 1;
        }
        let top: usize = if ground + trunk_h <= self.height() - 1 {
            ground + trunk_h
        } else {
            self.height() - 1
        };
        let lx_start: usize = if x >= 2 {
            x - 2
        } else {
            0
        };
        let lx_end: usize = if x + 2 <= self.width() - 1 {
            x + 2
        } else {
            self.width() - 1
        };
        let lz_start: usize = if z >= 2 {
            z - 2
        } else {
            0
        };
        let lz_end: usize = if z + 2 <= self.depth() - 1 {
            z + 2
        } else {
            self.depth() - 1
        };
        let ly_start: usize = if top >= 2 {
            top - 2
        } else {
            0
        };
        let ly_end: usize = if top + 1 <= self.height() - 1 {
            top + 1
        } else {
            self.height() - 1
        };
        let mut lx: usize = lx_start;
        while lx <= lx_end
            invariant
                self.wf(),
                self.spec_same_shape(orig),
                lx_start <= lx && (lx <= lx_end + 1 || lx == lx_start),
                ground as int == orig.spec_tree_seat(
                    ox as int + x as int,
                    oz as int + z as int,
                    orig.spec_height() - 1,
                ) + 1,
                1 <= ground <= orig.spec_height(),
                x < orig.spec_width(),
                z < orig.spec_depth(),
                x <= 100000 && z <= 100000,
                ox as int == orig.spec_origin_x(),
                oz as int == orig.spec_origin_z(),
                trunk_h as int == 5 + (x as int + z as int) % 3,
                trunk_end as int == (if ground + trunk_h <= orig.spec_height() {
                    ground + trunk_h
                } else {
                    orig.spec_height()
                }),
                top as int == (if ground + trunk_h <= orig.spec_height() - 1 {
                    ground + trunk_h
                } else {
                    orig.spec_height() - 1
                }),
                lx_start as int == (if x >= 2 {
                    x - 2
                } else {
                    0int
                }),
                lx_end as int == (if x + 2 <= orig.spec_width() - 1 {
                    x + 2
                } else {
                    orig.spec_width() - 1
                }),
                lz_start as int == (if z >= 2 {
                    z - 2
                } else {
                    0int
                }),
                lz_end as int == (if z + 2 <= orig.spec_depth() - 1 {
                    z + 2
                } else {
                    orig.spec_depth() - 1
                }),
                ly_start as int == (if top >= 2 {
                    top - 2
                } else {
                    0int
                }),
                ly_end as int == (if top + 1 <= orig.spec_height() - 1 {
                    top + 1
                } else {
                    orig.spec_height() - 1
                }),
                forall|i: int, j: int, k: int|
                    #![trigger self.spec_block_at(i, j, k)]
                    self.spec_in_bounds(i, j, k) ==> self.spec_block_at(i, j, k) == (if i
                        == x as int && k == z as int && ground <= j < trunk_end {
                        Block::Wood
                    } else if (lx_start <= i < lx && ly_start <= j <= ly_end && lz_start <= k
                        <= lz_end) && orig.spec_block_at(i, j, k) == Block::Air {
                        Block::Leaf
                    } else {
                        orig.spec_block_at(i, j, k)
                    }),
            decreases lx_end + 1 - lx,
        {
            let mut lz: usize = lz_start;
            while lz <= lz_end
                invariant
                    self.wf(),
                    self.spec_same_shape(orig),
                    lx_start <= lx <= lx_end,
                    lz_start <= lz && (lz <= lz_end + 1 || lz == lz_start),
                    ground as int == orig.spec_tree_seat(
                        ox as int + x as int,
                        oz as int + z as int,
                        orig.spec_height() - 1,
                    ) + 1,
                    1 <= ground <= orig.spec_height(),
                    x < orig.spec_width(),
                    z < orig.spec_depth(),
                    x <= 100000 && z <= 100000,
                    ox as int == orig.spec_origin_x(),
                    oz as int == orig.spec_origin_z(),
                    trunk_h as int == 5 + (x as int + z as int) % 3,
                    trunk_end as int == (if ground + trunk_h <= orig.spec_height() {
                        ground + trunk_h
                    } else {
                        orig.spec_height()
                    }),
                    top as int == (if ground + trunk_h <= orig.spec_height() - 1 {
                        ground + trunk_h
                    } else {
                        orig.spec_height() - 1
                    }),
                    lx_start as int == (if x >= 2 {
                        x - 2
                    } else {
                        0int
                    }),
                    lx_end as int == (if x + 2 <= orig.spec_width() - 1 {
                        x + 2
                    } else {
                        orig.spec_width() - 1
                    }),
                    lz_start as int == (if z >= 2 {
                        z - 2
                    } else {
                        0int
                    }),
                    lz_end as int == (if z + 2 <= orig.spec_depth() - 1 {
                        z + 2
                    } else {
                        orig.spec_depth() - 1
                    }),
                    ly_start as int == (if top >= 2 {
                        top - 2
                    } else {
                        0int
                    }),
                    ly_end as int == (if top + 1 <= orig.spec_height() - 1 {
                        top + 1
                    } else {
                        orig.spec_height() - 1
                    }),
                    forall|i: int, j: int, k: int|
                        #![trigger self.spec_block_at(i, j, k)]
                        self.spec_in_bounds(i, j, k) ==> self.spec_block_at(i, j, k) == (if i
                            == x as int && k == z as int && ground <= j < trunk_end {
                            Block::Wood
                        } else if ((lx_start <= i < lx && ly_start <= j <= ly_end && lz_start
                            <= k <= lz_end) || (i == lx && ly_start <= j <= ly_end && lz_start
                            <= k < lz)) && orig.spec_block_at(i, j, k) == Block::Air {
                            Block::Leaf
                        } else {
                            orig.spec_block_at(i, j, k)
                        }),
                decreases lz_end + 1 - lz,
            {
                let mut ly: usize = ly_start;
                while ly <= ly_end
                    invariant
                        self.wf(),
                        self.spec_same_shape(orig),
                        lx_start <= lx <= lx_end,
                        lz_start <= lz <= lz_end,
                        ly_start <= ly && (ly <= ly_end + 1 || ly == ly_start),
                        ground as int == orig.spec_tree_seat(
                            ox as int + x as int,
                            oz as int + z as int,
                            orig.spec_height() - 1,
                        ) + 1,
                        1 <= ground <= orig.spec_height(),
                        x < orig.spec_width(),
                        z < orig.spec_depth(),
                        x <= 100000 && z <= 100000,
                        ox as int == orig.spec_origin_x(),
                        oz as int == orig.spec_origin_z(),
                        trunk_h as int == 5 + (x as int + z as int) % 3,
                        trunk_end as int == (if ground + trunk_h <= orig.spec_height() {
                            ground + trunk_h
                        } else {
                            orig.spec_height()
                        }),
                        top as int == (if ground + trunk_h <= orig.spec_height() - 1 {
                            ground + trunk_h
                        } else {
                            orig.spec_height() - 1
                        }),
                        lx_start as int == (if x >= 2 {
                            x - 2
                        } else {
                            0int
                        }),
                        lx_end as int == (if x + 2 <= orig.spec_width() - 1 {
                            x + 2
                        } else {
                            orig.spec_width() - 1
                        }),
                        lz_start as int == (if z >= 2 {
                            z - 2
                        } else {
                            0int
                        }),
                        lz_end as int == (if z + 2 <= orig.spec_depth() - 1 {
                            z + 2
                        } else {
                            orig.spec_depth() - 1
                        }),
                        ly_start as int == (if top >= 2 {
                            top - 2
                        } else {
                            0int
                        }),
                        ly_end as int == (if top + 1 <= orig.spec_height() - 1 {
                            top + 1
                        } else {
                            orig.spec_height() - 1
                        }),
                        forall|i: int, j: int, k: int|
                            #![trigger self.spec_block_at(i, j, k)]
                            self.spec_in_bounds(i, j, k) ==> self.spec_block_at(i, j, k) == (if i
                                == x as int && k == z as int && ground <= j < trunk_end {
                                Block::Wood
                            } else if ((lx_start <= i < lx && ly_start <= j <= ly_end && lz_start
                                <= k <= lz_end) || (i == lx && ly_start <= j <= ly_end
                                && lz_start <= k < lz) || (i == lx && ly_start <= j < ly && k
                                == lz)) && orig.spec_block_at(i, j, k) == Block::Air {
                                Block::Leaf
                            } else {
                                orig.spec_block_at(i, j, k)
                            }),
                    decreases ly_end + 1 - ly,
                {
                    let wlx: i32 = (ox as i64 + lx as i64) as i32;
                    let wlz: i32 = (oz as i64 + lz as i64) as i32;
                    let ghost pre = *self;
                    if self.get_i32(wlx, ly as i32, wlz) == Block::Air {
                        self.set(lx, ly, lz, Block::Leaf);
                    }
                    proof {
                        assert(pre.spec_block_at(lx as int, ly as int, lz as int) == (if lx as int
                            == x as int && lz as int == z as int && ground <= ly as int
                            && (ly as int) < trunk_end as int {
                            Block::Wood
                        } else {
                            orig.spec_block_at(lx as int, ly as int, lz as int)
                        }));
                    }
                    ly = ly + 1;
                }
                lz = lz + 1;
            }
            lx = lx + 1;
        }
        proof {
            assert forall|i: int, j: int, k: int|
                #![trigger self.spec_block_at(i, j, k)]
                self.spec_in_bounds(i, j, k) implies self.spec_block_at(i, j, k) == (match orig.spec_tree_write(
                x as int,
                z as int,
                i,
                j,
                k,
            ) {
                Option::Some(b) => b,
                Option::None => orig.spec_block_at(i, j, k),
            }) by {
                assert(self.spec_block_at(i, j, k) == (if i == x as int && k == z as int && ground
                    <= j < trunk_end {
                    Block::Wood
                } else if (lx_start <= i < lx && ly_start <= j <= ly_end && lz_start <= k
                    <= lz_end) && orig.spec_block_at(i, j, k) == Block::Air {
                    Block::Leaf
                } else {
                    orig.spec_block_at(i, j, k)
                }));
            }
        }
    }

    /// Stamp a cactus stack on the sandy ground of the given local column,
    /// exactly as `spec_cactus_write` says; every other cell is untouched.
    fn add_cactus(&mut self, x: usize, z: usize)
        requires
            old(self).wf(),
            x <= 100000,
            z <= 100000,
        ensures
            final(self).wf(),
            final(self).spec_same_shape(*old(self)),
            forall|i: int, j: int, k: int|
                #![trigger final(self).spec_block_at(i, j, k)]
                final(self).spec_in_bounds(i, j, k) ==> final(self).spec_block_at(i, j, k)
                    == (match old(self).spec_cactus_write(x as int, z as int, i, j, k) {
                    Option::Some(b) => b,
                    Option::None => old(self).spec_block_at(i, j, k),
                }),
    {
        let ghost orig = *self;
        if x >= self.width() || z >= self.depth() {
            return ;
        }
        let (ox, oz) = self.origin();
        let wx: i32 = (ox as i64 + x as i64) as i32;
        let wz: i32 = (oz as i64 + z as i64) as i32;
        let mut ground: usize = 0;
        let mut found: bool = false;
        let mut yy: usize = self.height();
        while yy > 0 && !found
            invariant
                self.wf(),
                *self == orig,
                yy <= self.spec_height(),
                wx as int == ox as int + x as int,
                wz as int == oz as int + z as int,
                ox as int == self.spec_origin_x(),
                oz as int == self.spec_origin_z(),
                !found ==> self.spec_sandy_top(wx as int, wz as int, self.spec_height() - 1)
                    == self.spec_sandy_top(wx as int, wz as int, yy as int - 1),
                found ==> (ground as int == self.spec_sandy_top(
                    wx as int,
                    wz as int,
                    self.spec_height() - 1,
                ) + 1 && 1 <= ground <= self.spec_height()),
            decreases yy,
        {
            yy = yy - 1;
            let b = self.get_i32(wx, yy as i32, wz);
            if b == Block::Sand || b == Block::RedSand {
                ground = yy + 1;
                found = true;
            }
        }
        if !found {
            proof {
                assert(self.spec_sandy_top(wx as int, wz as int, self.spec_height() - 1) == -1);
            }
            return ;
        }
        let h: usize = 2 + ((x * 17 + z * 11) % 3);
        let top: usize = if ground + h <= self.height() {
            ground + h
        } else {
            self.height()
        };
        let mut y: usize = ground;
        while y < top
            invariant
                self.wf(),
                self.spec_same_shape(orig),
                ground <= y <= top,
                top <= self.spec_height(),
                ground as int == orig.spec_sandy_top(
                    ox as int + x as int,
                    oz as int + z as int,
                    orig.spec_height() - 1,
                ) + 1,
                1 <= ground,
                x < orig.spec_width(),
                z < orig.spec_depth(),
                ox as int == orig.spec_origin_x(),
                oz as int == orig.spec_origin_z(),
                h as int == 2 + (x as int * 17 + z as int * 11) % 3,
                top as int == (if ground + h <= orig.spec_height() {
                    ground + h
                } else {
                    orig.spec_height()
                }),
                forall|i: int, j: int, k: int|
                    #![trigger self.spec_block_at(i, j, k)]
                    self.spec_in_bounds(i, j, k) ==> self.spec_block_at(i, j, k) == (if i
                        == x as int && k == z as int && ground <= j < y {
                        Block::Cactus
                    } else {
                        orig.spec_block_at(i, j, k)
                    }),
            decreases top - y,
        {
            self.set(x, y, z, Block::Cactus);
            y = y + 1;
        }
        proof {
            assert forall|i: int, j: int, k: int|
                #![trigger self.spec_block_at(i, j, k)]
                self.spec_in_bounds(i, j, k) implies self.spec_block_at(i, j, k) == (match orig.spec_cactus_write(
                x as int,
                z as int,
                i,
                j,
                k,
            ) {
                Option::Some(b) => b,
                Option::None => orig.spec_block_at(i, j, k),
            }) by {
                assert(self.spec_block_at(i, j, k) == (if i == x as int && k == z as int && ground
                    <= j < top {
                    Block::Cactus
                } else {
                    orig.spec_block_at(i, j, k)
                }));
            }
        }
    }

    /// Stamp a small vertical target marker centred on the given cell,
    /// exactly as `spec_target_write` says; every other cell is untouched.
    fn add_target(&mut self, center_x: usize, center_y: usize, center_z: usize)
        requires
            old(self).wf(),
            center_x <= 100000,
            center_y <= 100000,
            center_z <= 100000,
        ensures
            final(self).wf(),
            final(self).spec_same_shape(*old(self)),
            forall|i: int, j: int, k: int|
                #![trigger final(self).spec_block_at(i, j, k)]
                final(self).spec_in_bounds(i, j, k) ==> final(self).spec_block_at(i, j, k)
                    == (match old(self).spec_target_write(
                    center_x as int,
                    center_y as int,
                    center_z as int,
                    i,
                    j,
                    k,
                ) {
                    Option::Some(b) => b,
                    Option::None => old(self).spec_block_at(i, j, k),
                }),
    {
        let ghost orig = *self;
        if center_x < 2 || center_y < 2 || center_z < 2 {
            return ;
        }
        let x0: usize = center_x - 2;
        let y0: usize = center_y - 2;
        let zt: usize = if center_z <= self.depth() - 1 {
            center_z
        } else {
            self.depth() - 1
        };
        let x_end: usize = if center_x + 2 <= self.width() - 1 {
            center_x + 2
        } else {
            self.width() - 1
        };
        let y_end: usize = if center_y + 2 <= self.height() - 1 {
            center_y + 2
        } else {
            self.height() - 1
        };
        let mut x: usize = x0;
        while x <= x_end
            invariant
                self.wf(),
                self.spec_same_shape(orig),
                x0 <= x && (x <= x_end + 1 || x == x0),
                x0 == center_x - 2,
                y0 == center_y - 2,
                center_x >= 2 && center_y >= 2 && center_z >= 2,
                center_x <= 100000 && center_y <= 100000,
                zt as int == (if center_z as int <= orig.spec_depth() - 1 {
                    center_z as int
                } else {
                    orig.spec_depth() - 1
                }),
                x_end as int == (if center_x + 2 <= orig.spec_width() - 1 {
                    center_x + 2
                } else {
                    orig.spec_width() - 1
                }),
                y_end as int == (if center_y + 2 <= orig.spec_height() - 1 {
                    center_y + 2
                } else {
                    orig.spec_height() - 1
                }),
                forall|i: int, j: int, k: int|
                    #![trigger self.spec_block_at(i, j, k)]
                    self.spec_in_bounds(i, j, k) ==> self.spec_block_at(i, j, k) == (if x0 <= i
                        < x && y0 <= j <= y_end && k == zt {
                        Block::Target
                    } else {
                        orig.spec_block_at(i, j, k)
                    }),
            decreases x_end + 1 - x,
        {
            let mut y: usize = y0;
            while y <= y_end
                invariant
                    self.wf(),
                    self.spec_same_shape(orig),
                    x0 <= x <= x_end,
                    y0 <= y && (y <= y_end + 1 || y == y0),
                    x0 == center_x - 2,
                    y0 == center_y - 2,
                    center_x >= 2 && center_y >= 2 && center_z >= 2,
                    center_x <= 100000 && center_y <= 100000,
                    zt as int == (if center_z as int <= orig.spec_depth() - 1 {
                        center_z as int
                    } else {
                        orig.spec_depth() - 1
                    }),
                    x_end as int == (if center_x + 2 <= orig.spec_width() - 1 {
                        center_x + 2
                    } else {
                        orig.spec_width() - 1
                    }),
                    y_end as int == (if center_y + 2 <= orig.spec_height() - 1 {
                        center_y + 2
                    } else {
                        orig.spec_height() - 1
                    }),
                    forall|i: int, j: int, k: int|
                        #![trigger self.spec_block_at(i, j, k)]
                        self.spec_in_bounds(i, j, k) ==> self.spec_block_at(i, j, k) == (if (x0
                            <= i < x && y0 <= j <= y_end && k == zt) || (i == x && y0 <= j < y
                            && k == zt) {
                            Block::Target
                        } else {
                            orig.spec_block_at(i, j, k)
                        }),
                decreases y_end + 1 - y,
            {
                self.set(x, y, zt, Block::Target);
                y = y + 1;
            }
            proof {
                assert forall|i: int, j: int, k: int|
                    #![trigger self.spec_block_at(i, j, k)]
                    self.spec_in_bounds(i, j, k) implies self.spec_block_at(i, j, k) == (if x0
                    <= i < x + 1 && y0 <= j <= y_end && k == zt {
                    Block::Target
                } else {
                    orig.spec_block_at(i, j, k)
                }) by {
                    assert(self.spec_block_at(i, j, k) == (if (x0 <= i < x && y0 <= j <= y_end
                        && k == zt) || (i == x as int && y0 <= j < y && k == zt) {
                        Block::Target
                    } else {
                        orig.spec_block_at(i, j, k)
                    }));
                }
            }
            x = x + 1;
        }
        proof {
            assert forall|i: int, j: int, k: int|
                #![trigger self.spec_block_at(i, j, k)]
                self.spec_in_bounds(i, j, k) implies self.spec_block_at(i, j, k) == (match orig.spec_target_write(
                center_x as int,
                center_y as int,
                center_z as int,
                i,
                j,
                k,
            ) {
                Option::Some(b) => b,
                Option::None => orig.spec_block_at(i, j, k),
            }) by {
                assert(self.spec_block_at(i, j, k) == (if x0 <= i < x && y0 <= j <= y_end && k
                    == zt {
                    Block::Target
                } else {
                    orig.spec_block_at(i, j, k)
                }));
            }
        }
    }

    /// Regenerate the whole volume for the given origin: the deterministic
    /// base terrain in every cell, then the structure pass (vegetation,
    /// houses, a target marker), and every region marked dirty. Outside the
    /// structure zone every cell holds exactly the base terrain.
    #[verifier::rlimit(100)]
    pub fn generate_at(&mut self, origin_x: i32, origin_z: i32)
        requires
            old(self).wf(),
            -1000000000 <= origin_x <= 1000000000,
            -1000000000 <= origin_z <= 1000000000,
        ensures
            final(self).wf(),
            final(self).spec_width() == old(self).spec_width(),
            final(self).spec_height() == old(self).spec_height(),
            final(self).spec_depth() == old(self).spec_depth(),
            final(self).spec_fallback() == old(self).spec_fallback(),
            final(self).spec_origin_x() == origin_x,
            final(self).spec_origin_z() == origin_z,
            forall|rx: int, ry: int, rz: int|
                #![trigger final(self).spec_dirty_at(rx, ry, rz)]
                final(self).spec_region_valid(rx, ry, rz) ==> final(self).spec_dirty_at(
                    rx,
                    ry,
                    rz,
                ),
            forall|i: int, j: int, k: int|
                #![trigger final(self).spec_block_at(i, j, k)]
                final(self).spec_in_bounds(i, j, k) && !spec_structure_zone(
                    final(self).spec_width(),
                    final(self).spec_depth(),
                    i,
                    j,
                    k,
                ) ==> final(self).spec_block_at(i, j, k) == spec_generated_block(
                    origin_x as int,
                    origin_z as int,
                    final(self).spec_surface_cap(),
                    i,
                    j,
                    k,
                ),
            forall|i: int, j: int, k: int|
                #![trigger final(self).spec_block_at(i, j, k)]
                final(self).spec_in_bounds(i, j, k) ==> ({
                    let t = final(self).spec_target_write(250, 36, 256, i, j, k);
                    let h4 = final(self).spec_house_write(420, 34, 410, 16, 9, 13, i, j, k);
                    let h3 = final(self).spec_house_write(340, 32, 300, 11, 8, 11, i, j, k);
                    let h2 = final(self).spec_house_write(180, 30, 120, 14, 10, 12, i, j, k);
                    let h1 = final(self).spec_house_write(40, 28, 42, 12, 9, 10, i, j, k);
                    &&& (t is Some ==> final(self).spec_block_at(i, j, k) == t->Some_0)
                    &&& (t is None && h4 is Some ==> final(self).spec_block_at(i, j, k)
                        == h4->Some_0)
                    &&& (t is None && h4 is None && h3 is Some ==> final(self).spec_block_at(
                        i,
                        j,
                        k,
                    ) == h3->Some_0)
                    &&& (t is None && h4 is None && h3 is None && h2 is Some ==> final(self).spec_block_at(i, j, k) == h2->Some_0)
                    &&& (t is None && h4 is None && h3 is None && h2 is None && h1 is Some
                        ==> final(self).spec_block_at(i, j, k) == h1->Some_0)
                }),
    {
        self.origin_x = origin_x;
        self.origin_z = origin_z;
        self.fill_terrain();
        let ghost filled = *self;
        let w: usize = self.width();
        let d: usize = self.depth();
        if w > 20 && d > 20 {
            let (ox, oz) = self.origin();
            let mut gx: usize = 10;
            while gx < w - 10
                invariant
                    self.wf(),
                    self.spec_same_shape(filled),
                    w == self.spec_width(),
                    d == self.spec_depth(),
                    w > 20,
                    d > 20,
                    ox as int == self.spec_origin_x(),
                    oz as int == self.spec_origin_z(),
                    gx >= 10,
                    (gx - 10) % 24 == 0,
                    forall|i: int, j: int, k: int|
                        #![trigger self.spec_block_at(i, j, k)]
                        self.spec_in_bounds(i, j, k) && !spec_structure_zone(
                            w as int,
                            d as int,
                            i,
                            j,
                            k,
                        ) ==> self.spec_block_at(i, j, k) == filled.spec_block_at(i, j, k),
                decreases w + 24 - gx,
            {
                let mut gz: usize = 10;
                while gz < d - 10
                    invariant
                        self.wf(),
                        self.spec_same_shape(filled),
                        w == self.spec_width(),
                        d == self.spec_depth(),
                        w > 20,
                        d > 20,
                        ox as int == self.spec_origin_x(),
                        oz as int == self.spec_origin_z(),
                        gx >= 10,
                        gx < w - 10,
                        (gx - 10) % 24 == 0,
                        gz >= 10,
                        (gz - 10) % 24 == 0,
                        forall|i: int, j: int, k: int|
                            #![trigger self.spec_block_at(i, j, k)]
                            self.spec_in_bounds(i, j, k) && !spec_structure_zone(
                                w as int,
                                d as int,
                                i,
                                j,
                                k,
                            ) ==> self.spec_block_at(i, j, k) == filled.spec_block_at(i, j, k),
                    decreases d + 24 - gz,
                {
                    let wgx: i32 = (ox as i64 + gx as i64) as i32;
                    let wgz: i32 = (oz as i64 + gz as i64) as i32;
                    let ghost pre = *self;
                    let b = crate::terrain::biome_at(wgx, wgz);
                    if b == Biome::Forest {
                        self.add_tree(gx, gz);
                    } else if b == Biome::Desert {
                        self.add_cactus(gx, gz);
                    }
                    proof {
                        assert forall|i: int, j: int, k: int|
                            #![trigger self.spec_block_at(i, j, k)]
                            self.spec_in_bounds(i, j, k) && !spec_structure_zone(
                                w as int,
                                d as int,
                                i,
                                j,
                                k,
                            ) implies self.spec_block_at(i, j, k) == filled.spec_block_at(
                            i,
                            j,
                            k,
                        ) by {
                            assert(pre.spec_block_at(i, j, k) == filled.spec_block_at(i, j, k));
                            if gx as int - 2 <= i <= gx as int + 2 && gz as int - 2 <= k
                                <= gz as int + 2 {
                                assert((i - 8) % 24 <= 4 && 10 + 24 * ((i - 8) / 24) == gx as int)
                                    by (nonlinear_arith)
                                    requires
                                        gx as int >= 10,
                                        (gx as int - 10) % 24 == 0,
                                        gx as int - 2 <= i <= gx as int + 2,
                                ;
                                assert((k - 8) % 24 <= 4 && 10 + 24 * ((k - 8) / 24) == gz as int)
                                    by (nonlinear_arith)
                                    requires
                                        gz as int >= 10,
                                        (gz as int - 10) % 24 == 0,
                                        gz as int - 2 <= k <= gz as int + 2,
                                ;
                                assert(spec_near_grid(i, w as int - 10));
                                assert(spec_near_grid(k, d as int - 10));
                                assert(false);
                            }
                        }
                    }
                    gz = gz + 24;
                }
                gx = gx + 24;
            }
        }
        let ghost veg = *self;
        self.add_house(40, 28, 42, 12, 9, 10);
        let ghost s1 = *self;
        proof {
            assert forall|i: int, j: int, k: int|
                #![trigger self.spec_block_at(i, j, k)]
                self.spec_in_bounds(i, j, k) && !spec_structure_zone(w as int, d as int, i, j, k)
                    implies self.spec_block_at(i, j, k) == filled.spec_block_at(i, j, k) by {
                assert(veg.spec_block_at(i, j, k) == filled.spec_block_at(i, j, k));
            }
        }
        self.add_house(180, 30, 120, 14, 10, 12);
        let ghost s2 = *self;
        proof {
            assert forall|i: int, j: int, k: int|
                #![trigger self.spec_block_at(i, j, k)]
                self.spec_in_bounds(i, j, k) && !spec_structure_zone(w as int, d as int, i, j, k)
                    implies self.spec_block_at(i, j, k) == filled.spec_block_at(i, j, k) by {
                assert(s1.spec_block_at(i, j, k) == filled.spec_block_at(i, j, k));
            }
        }
        self.add_house(340, 32, 300, 11, 8, 11);
        let ghost s3 = *self;
        proof {
            assert forall|i: int, j: int, k: int|
                #![trigger self.spec_block_at(i, j, k)]
                self.spec_in_bounds(i, j, k) && !spec_structure_zone(w as int, d as int, i, j, k)
                    implies self.spec_block_at(i, j, k) == filled.spec_block_at(i, j, k) by {
                assert(s2.spec_block_at(i, j, k) == filled.spec_block_at(i, j, k));
            }
        }
        self.add_house(420, 34, 410, 16, 9, 13);
        let ghost s4 = *self;
        proof {
            assert forall|i: int, j: int, k: int|
                #![trigger self.spec_block_at(i, j, k)]
                self.spec_in_bounds(i, j, k) && !spec_structure_zone(w as int, d as int, i, j, k)
                    implies self.spec_block_at(i, j, k) == filled.spec_block_at(i, j, k) by {
                assert(s3.spec_block_at(i, j, k) == filled.spec_block_at(i, j, k));
            }
        }
        self.add_target(250, 36, 256);
        let ghost s5 = *self;
        proof {
            assert forall|i: int, j: int, k: int|
                #![trigger self.spec_block_at(i, j, k)]
                self.spec_in_bounds(i, j, k) && !spec_structure_zone(w as int, d as int, i, j, k)
                    implies self.spec_block_at(i, j, k) == filled.spec_block_at(i, j, k) by {
                assert(s4.spec_block_at(i, j, k) == filled.spec_block_at(i, j, k));
            }
        }
        self.fill_all_dirty();
        proof {
            assert forall|i: int, j: int, k: int|
                #![trigger self.spec_block_at(i, j, k)]
                self.spec_in_bounds(i, j, k) implies ({
                let t = self.spec_target_write(250, 36, 256, i, j, k);
                let h4 = self.spec_house_write(420, 34, 410, 16, 9, 13, i, j, k);
                let h3 = self.spec_house_write(340, 32, 300, 11, 8, 11, i, j, k);
                let h2 = self.spec_house_write(180, 30, 120, 14, 10, 12, i, j, k);
                let h1 = self.spec_house_write(40, 28, 42, 12, 9, 10, i, j, k);
                &&& (t is Some ==> self.spec_block_at(i, j, k) == t->Some_0)
                &&& (t is None && h4 is Some ==> self.spec_block_at(i, j, k) == h4->Some_0)
                &&& (t is None && h4 is None && h3 is Some ==> self.spec_block_at(i, j, k)
                    == h3->Some_0)
                &&& (t is None && h4 is None && h3 is None && h2 is Some ==> self.spec_block_at(
                    i,
                    j,
                    k,
                ) == h2->Some_0)
                &&& (t is None && h4 is None && h3 is None && h2 is None && h1 is Some
                    ==> self.spec_block_at(i, j, k) == h1->Some_0)
            }) by {
                assert(self.blocks_view() == s5.blocks_view());
                assert(s5.spec_block_at(i, j, k) == (match s4.spec_target_write(
                    250,
                    36,
                    256,
                    i,
                    j,
                    k,
                ) {
                    Option::Some(b) => b,
                    Option::None => s4.spec_block_at(i, j, k),
                }));
                assert(s4.spec_block_at(i, j, k) == (match s3.spec_house_write(
                    420,
                    34,
                    410,
                    16,
                    9,
                    13,
                    i,
                    j,
                    k,
                ) {
                    Option::Some(b) => b,
                    Option::None => s3.spec_block_at(i, j, k),
                }));
                assert(s3.spec_block_at(i, j, k) == (match s2.spec_house_write(
                    340,
                    32,
                    300,
                    11,
                    8,
                    11,
                    i,
                    j,
                    k,
                ) {
                    Option::Some(b) => b,
                    Option::None => s2.spec_block_at(i, j, k),
                }));
                assert(s2.spec_block_at(i, j, k) == (match s1.spec_house_write(
                    180,
                    30,
                    120,
                    14,
                    10,
                    12,
                    i,
                    j,
                    k,
                ) {
                    Option::Some(b) => b,
                    Option::None => s1.spec_block_at(i, j, k),
                }));
                assert(s1.spec_block_at(i, j, k) == (match veg.spec_house_write(
                    40,
                    28,
                    42,
                    12,
                    9,
                    10,
                    i,
                    j,
                    k,
                ) {
                    Option::Some(b) => b,
                    Option::None => veg.spec_block_at(i, j, k),
                }));
            }
            assert forall|i: int, j: int, k: int|
                #![trigger self.spec_block_at(i, j, k)]
                self.spec_in_bounds(i, j, k) && !spec_structure_zone(w as int, d as int, i, j, k)
                    implies self.spec_block_at(i, j, k) == spec_generated_block(
                origin_x as int,
                origin_z as int,
                self.spec_surface_cap(),
                i,
                j,
                k,
            ) by {
                assert(s5.spec_block_at(i, j, k) == filled.spec_block_at(i, j, k));
                assert(self.blocks_view() == s5.blocks_view());
                assert(filled.spec_block_at(i, j, k) == spec_generated_block(
                    origin_x as int,
                    origin_z as int,
                    filled.spec_surface_cap(),
                    i,
                    j,
                    k,
                ));
            }
        }
    }

    /// Regenerate the whole volume for the current origin.
    pub fn generate(&mut self)
        requires
            old(self).wf(),
        ensures
            final(self).wf(),
            final(self).spec_same_shape(*old(self)),
            forall|rx: int, ry: int, rz: int|
                #![trigger final(self).spec_dirty_at(rx, ry, rz)]
                final(self).spec_region_valid(rx, ry, rz) ==> final(self).spec_dirty_at(
                    rx,
                    ry,
                    rz,
                ),
            forall|i: int, j: int, k: int|
                #![trigger final(self).spec_block_at(i, j, k)]
                final(self).spec_in_bounds(i, j, k) && !spec_structure_zone(
                    final(self).spec_width(),
                    final(self).spec_depth(),
                    i,
                    j,
                    k,
                ) ==> final(self).spec_block_at(i, j, k) == spec_generated_block(
                    old(self).spec_origin_x(),
                    old(self).spec_origin_z(),
                    final(self).spec_surface_cap(),
                    i,
                    j,
                    k,
                ),
    {
        let (ox, oz) = self.origin();
        self.generate_at(ox, oz);
    }

    /// Two identically shaped volumes with identical cells scan to the same
    /// tree seat in any column.
    pub proof fn lemma_tree_seat_deterministic(self, other: Chunk, wx: int, wz: int, y: int)
        requires
            self.wf(),
            other.wf(),
            self.spec_same_shape(other),
            forall|i: int, j: int, k: int|
                #![trigger self.spec_block_at(i, j, k)]
                self.spec_in_bounds(i, j, k) ==> self.spec_block_at(i, j, k)
                    == other.spec_block_at(i, j, k),
        ensures
            self.spec_tree_seat(wx, wz, y) == other.spec_tree_seat(wx, wz, y),
        decreases y + 1,
    {
        if y >= 0 {
            if self.spec_origin_x() <= wx < self.spec_origin_x() + self.spec_width()
                && self.spec_origin_z() <= wz < self.spec_origin_z() + self.spec_depth() && 0 <= y
                < self.spec_height() {
                assert(self.spec_block_at(wx - self.spec_origin_x(), y, wz - self.spec_origin_z())
                    == other.spec_block_at(
                    wx - self.spec_origin_x(),
                    y,
                    wz - self.spec_origin_z(),
                ));
            }
            assert(self.spec_get_world(wx, y, wz) == other.spec_get_world(wx, y, wz));
            self.lemma_tree_seat_deterministic(other, wx, wz, y - 1);
        }
    }

    /// Two identically shaped volumes with identical cells scan to the same
    /// sandy seat in any column.
    pub proof fn lemma_sandy_top_deterministic(self, other: Chunk, wx: int, wz: int, y: int)
        requires
            self.wf(),
            other.wf(),
            self.spec_same_shape(other),
            forall|i: int, j: int, k: int|
                #![trigger self.spec_block_at(i, j, k)]
                self.spec_in_bounds(i, j, k) ==> self.spec_block_at(i, j, k)
                    == other.spec_block_at(i, j, k),
        ensures
            self.spec_sandy_top(wx, wz, y) == other.spec_sandy_top(wx, wz, y),
        decreases y + 1,
    {
        if y >= 0 {
            if self.spec_origin_x() <= wx < self.spec_origin_x() + self.spec_width()
                && self.spec_origin_z() <= wz < self.spec_origin_z() + self.spec_depth() && 0 <= y
                < self.spec_height() {
                assert(self.spec_block_at(wx - self.spec_origin_x(), y, wz - self.spec_origin_z())
                    == other.spec_block_at(
                    wx - self.spec_origin_x(),
                    y,
                    wz - self.spec_origin_z(),
                ));
            }
            assert(self.spec_get_world(wx, y, wz) == other.spec_get_world(wx, y, wz));
            self.lemma_sandy_top_deterministic(other, wx, wz, y - 1);
        }
    }

    /// The structure pass is deterministic: two identically shaped volumes
    /// with identical cells receive identical stamp writes at every cell,
    /// for trees, cacti, houses and the target marker alike. Together with
    /// the base pass equalling the pure column function, regenerating with
    /// the same origin reproduces the same volume.
    pub proof fn lemma_stamps_deterministic(
        self,
        other: Chunk,
        x: int,
        z: int,
        i: int,
        j: int,
        k: int,
    )
        requires
            self.wf(),
            other.wf(),
            self.spec_same_shape(other),
            forall|a: int, b: int, c: int|
                #![trigger self.spec_block_at(a, b, c)]
                self.spec_in_bounds(a, b, c) ==> self.spec_block_at(a, b, c)
                    == other.spec_block_at(a, b, c),
        ensures
            self.spec_tree_write(x, z, i, j, k) == other.spec_tree_write(x, z, i, j, k),
            self.spec_cactus_write(x, z, i, j, k) == other.spec_cactus_write(x, z, i, j, k),
            forall|x0: int, y0: int, z0: int, w: int, h: int, d: int|
                self.spec_house_write(x0, y0, z0, w, h, d, i, j, k)
                    == #[trigger] other.spec_house_write(x0, y0, z0, w, h, d, i, j, k),
            forall|cx: int, cy: int, cz: int|
                self.spec_target_write(cx, cy, cz, i, j, k) == #[trigger] other.spec_target_write(
                    cx,
                    cy,
                    cz,
                    i,
                    j,
                    k,
                ),
    {
        self.lemma_tree_seat_deterministic(
            other,
            self.spec_origin_x() + x,
            self.spec_origin_z() + z,
            self.spec_height() - 1,
        );
        self.lemma_sandy_top_deterministic(
            other,
            self.spec_origin_x() + x,
            self.spec_origin_z() + z,
            self.spec_height() - 1,
        );
        if self.spec_in_bounds(i, j, k) {
            assert(self.spec_block_at(i, j, k) == other.spec_block_at(i, j, k));
        }
    }

    /// Dirty marking is symmetric under the 26-neighbour rule: a write to a
    /// cell of one region marks a second region exactly when a write to any
    /// cell of that second region would mark the first. In particular a
    /// write at a region boundary marks both regions sharing that boundary.
    pub proof fn lemma_marks_region_symmetric(
        self,
        x1: int,
        y1: int,
        z1: int,
        x2: int,
        y2: int,
        z2: int,
    )
        requires
            x1 >= 0,
            y1 >= 0,
            z1 >= 0,
            x2 >= 0,
            y2 >= 0,
            z2 >= 0,
        ensures
            self.spec_marks_region(x1, y1, z1, x2 / 16, y2 / 16, z2 / 16)
                == self.spec_marks_region(x2, y2, z2, x1 / 16, y1 / 16, z1 / 16),
    {
    }
}

/// Region counts of the default volume along x, y and z.
pub fn mesh_region_dims() -> (r: (usize, usize, usize))
    ensures
        r == (32usize, 6usize, 32usize),
{
    (
        CHUNK_WIDTH / CHUNK_REGION_SIZE,
        CHUNK_HEIGHT / CHUNK_REGION_SIZE,
        CHUNK_DEPTH / CHUNK_REGION_SIZE,
    )
}

/// Total region count of the default volume.
pub fn mesh_region_count() -> (r: usize)
    ensures
        r == 6144,
{
    let (rx, ry, rz) = mesh_region_dims();
    rx * ry * rz
}

/// Linear offset of a region of the default volume.
pub fn region_index(rx: usize, ry: usize, rz: usize) -> (r: usize)
    requires
        rx < 32,
        ry < 6,
        rz < 32,
    ensures
        r == rx + rz * 32 + ry * 32 * 32,
{
    let (regions_x, _, regions_z) = mesh_region_dims();
    rx + rz * regions_x + ry * regions_x * regions_z
}

} // verus!
