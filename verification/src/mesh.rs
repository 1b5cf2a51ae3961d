use vstd::prelude::*;
use crate::block::{BlockRegistry, BlockType};
use crate::chunk::{spec_cell_index, ChunkBlocks, CHUNK_VOLUME};
use crate::voxel::{
    create_cube_indices_selective, create_cube_vertices_selective, spec_selected_vertices,
    spec_selective_indices, Vertex,
};

verus! {

/// The renderable geometry of one chunk: a vertex list and a triangle-list
/// index list, replaced wholesale on every rebuild.
pub struct ChunkData {
    pub vertices: Vec<Vertex>,
    pub indices: Vec<u32>,
}

/// The cells of a neighboring chunk, if that chunk is resident.
pub open spec fn opt_view(nb: Option<&ChunkBlocks>) -> Option<Seq<BlockType>> {
    match nb {
        Option::Some(c) => Option::Some(c.view()),
        Option::None => Option::None,
    }
}

/// Whether face `face` of the block in cell (x, z, y) is visible and must be
/// emitted: faces at the top or bottom of the world always are; faces toward
/// a neighboring chunk are visible when that chunk is absent (render when in
/// doubt) or has air just across the boundary; faces inside the chunk are
/// visible exactly when the adjacent cell is air.
pub open spec fn spec_face_visible(
    cells: Seq<BlockType>,
    nxs: Option<Seq<BlockType>>,
    pxs: Option<Seq<BlockType>>,
    nzs: Option<Seq<BlockType>>,
    pzs: Option<Seq<BlockType>>,
    x: int,
    z: int,
    y: int,
    face: int,
) -> bool {
    let off = crate::voxel::face_offset(face);
    let ax = x + off.0;
    let ay = y + off.1;
    let az = z + off.2;
    if ay < 0 || ay >= 255 {
        true
    } else if ax < 0 {
        match nxs {
            Option::Some(n) => n[spec_cell_index(15, az, ay)] == BlockType::Air,
            Option::None => true,
        }
    } else if ax >= 16 {
        match pxs {
            Option::Some(n) => n[spec_cell_index(0, az, ay)] == BlockType::Air,
            Option::None => true,
        }
    } else if az < 0 {
        match nzs {
            Option::Some(n) => n[spec_cell_index(ax, 15, ay)] == BlockType::Air,
            Option::None => true,
        }
    } else if az >= 16 {
        match pzs {
            Option::Some(n) => n[spec_cell_index(ax, 0, ay)] == BlockType::Air,
            Option::None => true,
        }
    } else {
        cells[spec_cell_index(ax, az, ay)] == BlockType::Air
    }
}

/// The visible faces of cell (x, z, y) among faces 0..k, in face order.
pub open spec fn spec_faces_upto(
    cells: Seq<BlockType>,
    nxs: Option<Seq<BlockType>>,
    pxs: Option<Seq<BlockType>>,
    nzs: Option<Seq<BlockType>>,
    pzs: Option<Seq<BlockType>>,
    x: int,
    z: int,
    y: int,
    k: int,
) -> Seq<usize>
    decreases k,
{
    if k <= 0 {
        Seq::empty()
    } else {
        spec_faces_upto(cells, nxs, pxs, nzs, pzs, x, z, y, k - 1) + (if spec_face_visible(
            cells,
            nxs,
            pxs,
            nzs,
            pzs,
            x,
            z,
            y,
            k - 1,
        ) {
            seq![(k - 1) as usize]
        } else {
            Seq::empty()
        })
    }
}

/// The visible faces of cell (x, z, y), in the fixed face order.
pub open spec fn spec_cell_faces(
    cells: Seq<BlockType>,
    nxs: Option<Seq<BlockType>>,
    pxs: Option<Seq<BlockType>>,
    nzs: Option<Seq<BlockType>>,
    pzs: Option<Seq<BlockType>>,
    x: int,
    z: int,
    y: int,
) -> Seq<usize> {
    spec_faces_upto(cells, nxs, pxs, nzs, pzs, x, z, y, 6)
}

/// Every listed face number is below k.
pub proof fn lemma_faces_upto_bounds(
    cells: Seq<BlockType>,
    nxs: Option<Seq<BlockType>>,
    pxs: Option<Seq<BlockType>>,
    nzs: Option<Seq<BlockType>>,
    pzs: Option<Seq<BlockType>>,
    x: int,
    z: int,
    y: int,
    k: int,
)
    ensures
        spec_faces_upto(cells, nxs, pxs, nzs, pzs, x, z, y, k).len() <= (if k <= 0 {
            0int
        } else {
            k
        }),
        forall|i: int|
            0 <= i < spec_faces_upto(cells, nxs, pxs, nzs, pzs, x, z, y, k).len()
                ==> (#[trigger] spec_faces_upto(cells, nxs, pxs, nzs, pzs, x, z, y, k)[i]) < k,
    decreases k,
{
    if k > 0 {
        lemma_faces_upto_bounds(cells, nxs, pxs, nzs, pzs, x, z, y, k - 1);
    }
}

/// The vertices one cell contributes to the mesh: none for air, otherwise a
/// quad for each visible face, textured from the block's material.
pub open spec fn spec_cell_vertices(
    reg: &BlockRegistry,
    chunk_x: int,
    chunk_z: int,
    cells: Seq<BlockType>,
    nxs: Option<Seq<BlockType>>,
    pxs: Option<Seq<BlockType>>,
    nzs: Option<Seq<BlockType>>,
    pzs: Option<Seq<BlockType>>,
    x: int,
    z: int,
    y: int,
) -> Seq<Vertex> {
    let b = cells[spec_cell_index(x, z, y)];
    if b == BlockType::Air {
        Seq::empty()
    } else {
        spec_selected_vertices(
            chunk_x * 16 + x,
            y,
            chunk_z * 16 + z,
            reg.spec_textures(b),
            spec_cell_faces(cells, nxs, pxs, nzs, pzs, x, z, y),
        )
    }
}

/// Cell coordinates of flat scan index `n`: x outermost, then z, then y.
pub open spec fn spec_scan_x(n: int) -> int {
    n / 4080
}

pub open spec fn spec_scan_z(n: int) -> int {
    (n % 4080) / 255
}

pub open spec fn spec_scan_y(n: int) -> int {
    n % 255
}

pub proof fn lemma_scan_coords(x: int, z: int, y: int)
    requires
        0 <= x < 16,
        0 <= z < 16,
        0 <= y < 255,
    ensures
        spec_scan_x(spec_cell_index(x, z, y)) == x,
        spec_scan_z(spec_cell_index(x, z, y)) == z,
        spec_scan_y(spec_cell_index(x, z, y)) == y,
{
    let n = (x * 16 + z) * 255 + y;
    assert(n == x * 4080 + z * 255 + y) by (nonlinear_arith)
        requires
            n == (x * 16 + z) * 255 + y,
    {}
    assert(n / 4080 == x && (n % 4080) / 255 == z && n % 255 == y) by (nonlinear_arith)
        requires
            n == x * 4080 + z * 255 + y,
            0 <= x < 16,
            0 <= z < 16,
            0 <= y < 255,
    {}
}

/// Every flat scan index names an in-range cell, and scanning is the
/// inverse of the cell's storage index.
pub proof fn lemma_scan_in_range(n: int)
    requires
        0 <= n < CHUNK_VOLUME,
    ensures
        0 <= spec_scan_x(n) < 16,
        0 <= spec_scan_z(n) < 16,
        0 <= spec_scan_y(n) < 255,
        spec_cell_index(spec_scan_x(n), spec_scan_z(n), spec_scan_y(n)) == n,
{
    assert(0 <= n / 4080 < 16 && 0 <= (n % 4080) / 255 < 16 && 0 <= n % 255 < 255 && ((n / 4080)
        * 16 + (n % 4080) / 255) * 255 + n % 255 == n) by (nonlinear_arith)
        requires
            0 <= n < 65280,
    {}
}

/// The mesh vertices of the first `n` cells, in scan order.
pub open spec fn spec_mesh_vertices_upto(
    reg: &BlockRegistry,
    chunk_x: int,
    chunk_z: int,
    cells: Seq<BlockType>,
    nxs: Option<Seq<BlockType>>,
    pxs: Option<Seq<BlockType>>,
    nzs: Option<Seq<BlockType>>,
    pzs: Option<Seq<BlockType>>,
    n: int,
) -> Seq<Vertex>
    decreases n,
{
    if n <= 0 {
        Seq::empty()
    } else {
        spec_mesh_vertices_upto(reg, chunk_x, chunk_z, cells, nxs, pxs, nzs, pzs, n - 1)
            + spec_cell_vertices(
            reg,
            chunk_x,
            chunk_z,
            cells,
            nxs,
            pxs,
            nzs,
            pzs,
            spec_scan_x(n - 1),
            spec_scan_z(n - 1),
            spec_scan_y(n - 1),
        )
    }
}

/// The mesh indices of the first `n` cells: six per emitted quad, referring
/// to the four vertices the quad contributed.
pub open spec fn spec_mesh_indices_upto(
    reg: &BlockRegistry,
    chunk_x: int,
    chunk_z: int,
    cells: Seq<BlockType>,
    nxs: Option<Seq<BlockType>>,
    pxs: Option<Seq<BlockType>>,
    nzs: Option<Seq<BlockType>>,
    pzs: Option<Seq<BlockType>>,
    n: int,
) -> Seq<u32>
    decreases n,
{
    if n <= 0 {
        Seq::empty()
    } else {
        spec_mesh_indices_upto(reg, chunk_x, chunk_z, cells, nxs, pxs, nzs, pzs, n - 1)
            + spec_selective_indices(
            spec_mesh_vertices_upto(reg, chunk_x, chunk_z, cells, nxs, pxs, nzs, pzs, n - 1).len()
                as int,
            spec_cell_vertices(
                reg,
                chunk_x,
                chunk_z,
                cells,
                nxs,
                pxs,
                nzs,
                pzs,
                spec_scan_x(n - 1),
                spec_scan_z(n - 1),
                spec_scan_y(n - 1),
            ).len() as int / 4,
        )
    }
}

/// The full mesh of one chunk under the given neighbor occupancy.
pub open spec fn spec_mesh_vertices(
    reg: &BlockRegistry,
    chunk_x: int,
    chunk_z: int,
    cells: Seq<BlockType>,
    nxs: Option<Seq<BlockType>>,
    pxs: Option<Seq<BlockType>>,
    nzs: Option<Seq<BlockType>>,
    pzs: Option<Seq<BlockType>>,
) -> Seq<Vertex> {
    spec_mesh_vertices_upto(
        reg,
        chunk_x,
        chunk_z,
        cells,
        nxs,
        pxs,
        nzs,
        pzs,
        CHUNK_VOLUME as int,
    )
}

pub open spec fn spec_mesh_indices(
    reg: &BlockRegistry,
    chunk_x: int,
    chunk_z: int,
    cells: Seq<BlockType>,
    nxs: Option<Seq<BlockType>>,
    pxs: Option<Seq<BlockType>>,
    nzs: Option<Seq<BlockType>>,
    pzs: Option<Seq<BlockType>>,
) -> Seq<u32> {
    spec_mesh_indices_upto(reg, chunk_x, chunk_z, cells, nxs, pxs, nzs, pzs, CHUNK_VOLUME as int)
}

/// Decide visibility of one face of cell (x, z, y).
fn face_visible(
    blocks: &ChunkBlocks,
    neg_x: Option<&ChunkBlocks>,
    pos_x: Option<&ChunkBlocks>,
    neg_z: Option<&ChunkBlocks>,
    pos_z: Option<&ChunkBlocks>,
    x: usize,
    z: usize,
    y: usize,
    face: usize,
) -> (r: bool)
    requires
        blocks.wf(),
        (neg_x matches Option::Some(c) ==> c.wf()),
        (pos_x matches Option::Some(c) ==> c.wf()),
        (neg_z matches Option::Some(c) ==> c.wf()),
        (pos_z matches Option::Some(c) ==> c.wf()),
        x < 16,
        z < 16,
        y < 255,
        face < 6,
    ensures
        r == spec_face_visible(
            blocks.view(),
            opt_view(neg_x),
            opt_view(pos_x),
            opt_view(neg_z),
            opt_view(pos_z),
            x as int,
            z as int,
            y as int,
            face as int,
        ),
{
    let (dx, dy, dz): (i32, i32, i32) = if face == 0 {
        (0, 0, 1)
    } else if face == 1 {
        (0, 0, -1)
    } else if face == 2 {
        (-1, 0, 0)
    } else if face == 3 {
        (1, 0, 0)
    } else if face == 4 {
        (0, 1, 0)
    } else {
        (0, -1, 0)
    };
    let ax = x as i32 + dx;
    let ay = y as i32 + dy;
    let az = z as i32 + dz;
    if ay < 0 || ay >= 255 {
        true
    } else if ax < 0 {
        match neg_x {
            Some(n) => n.get(15, az as usize, ay as usize) == BlockType::Air,
            None => true,
        }
    } else if ax >= 16 {
        match pos_x {
            Some(n) => n.get(0, az as usize, ay as usize) == BlockType::Air,
            None => true,
        }
    } else if az < 0 {
        match neg_z {
            Some(n) => n.get(ax as usize, 15, ay as usize) == BlockType::Air,
            None => true,
        }
    } else if az >= 16 {
        match pos_z {
            Some(n) => n.get(ax as usize, 0, ay as usize) == BlockType::Air,
            None => true,
        }
    } else {
        blocks.get(ax as usize, az as usize, ay as usize) == BlockType::Air
    }
}


/// Emit the geometry of one cell: append its visible-face quads to the
/// vertex buffer and the matching triangle indices to the index buffer.
#[verifier::rlimit(80)]
fn emit_cell(
    reg: &BlockRegistry,
    chunk_x: i32,
    chunk_z: i32,
    blocks: &ChunkBlocks,
    neg_x: Option<&ChunkBlocks>,
    pos_x: Option<&ChunkBlocks>,
    neg_z: Option<&ChunkBlocks>,
    pos_z: Option<&ChunkBlocks>,
    x: usize,
    z: usize,
    y: usize,
    vertices: &mut Vec<Vertex>,
    indices: &mut Vec<u32>,
)
    requires
        reg.wf(),
        blocks.wf(),
        (neg_x matches Option::Some(c) ==> c.wf()),
        (pos_x matches Option::Some(c) ==> c.wf()),
        (neg_z matches Option::Some(c) ==> c.wf()),
        (pos_z matches Option::Some(c) ==> c.wf()),
        -100_000_000 <= chunk_x <= 100_000_000,
        -100_000_000 <= chunk_z <= 100_000_000,
        x < 16,
        z < 16,
        y < 255,
        old(vertices)@.len() <= 2_000_000,
    ensures
        final(vertices)@ == old(vertices)@ + spec_cell_vertices(
            reg,
            chunk_x as int,
            chunk_z as int,
            blocks.view(),
            opt_view(neg_x),
            opt_view(pos_x),
            opt_view(neg_z),
            opt_view(pos_z),
            x as int,
            z as int,
            y as int,
        ),
        final(indices)@ == old(indices)@ + spec_selective_indices(
            old(vertices)@.len() as int,
            spec_cell_vertices(
                reg,
                chunk_x as int,
                chunk_z as int,
                blocks.view(),
                opt_view(neg_x),
                opt_view(pos_x),
                opt_view(neg_z),
                opt_view(pos_z),
                x as int,
                z as int,
                y as int,
            ).len() as int / 4,
        ),
        final(vertices)@.len() <= old(vertices)@.len() + 24,
{
    let ghost gnx = opt_view(neg_x);
    let ghost gpx = opt_view(pos_x);
    let ghost gnz = opt_view(neg_z);
    let ghost gpz = opt_view(pos_z);
    proof {
        crate::chunk::lemma_cell_index_in_range(x as int, z as int, y as int);
    }
    let b = blocks.get(x, z, y);
    let ghost cellvs = spec_cell_vertices(
        reg,
        chunk_x as int,
        chunk_z as int,
        blocks.view(),
        gnx,
        gpx,
        gnz,
        gpz,
        x as int,
        z as int,
        y as int,
    );
    if b != BlockType::Air {
        let mut faces: Vec<usize> = Vec::new();
        let mut f: usize = 0;
        while f < 6
            invariant
                f <= 6,
                reg.wf(),
                blocks.wf(),
                (neg_x matches Option::Some(c) ==> c.wf()),
                (pos_x matches Option::Some(c) ==> c.wf()),
                (neg_z matches Option::Some(c) ==> c.wf()),
                (pos_z matches Option::Some(c) ==> c.wf()),
                gnx == opt_view(neg_x),
                gpx == opt_view(pos_x),
                gnz == opt_view(neg_z),
                gpz == opt_view(pos_z),
                x < 16,
                z < 16,
                y < 255,
                faces@ == spec_faces_upto(
                    blocks.view(),
                    gnx,
                    gpx,
                    gnz,
                    gpz,
                    x as int,
                    z as int,
                    y as int,
                    f as int,
                ),
            decreases 6 - f,
        {
            if face_visible(blocks, neg_x, pos_x, neg_z, pos_z, x, z, y, f) {
                faces.push(f);
            }
            proof {
                assert(faces@ =~= spec_faces_upto(
                    blocks.view(),
                    gnx,
                    gpx,
                    gnz,
                    gpz,
                    x as int,
                    z as int,
                    y as int,
                    f + 1,
                ));
            }
            f = f + 1;
        }
        proof {
            lemma_faces_upto_bounds(
                blocks.view(),
                gnx,
                gpx,
                gnz,
                gpz,
                x as int,
                z as int,
                y as int,
                6,
            );
            assert(forall|i: int| 0 <= i < faces@.len() ==> (#[trigger] faces@[i]) < 6);
        }
        if faces.len() > 0 {
            let tex = reg.get_textures(b);
            proof {
                lemma_selected_vertices_exact_len(
                    chunk_x * 16 + x,
                    y as int,
                    chunk_z * 16 + z,
                    tex,
                    faces@,
                );
            }
            let wx: i64 = chunk_x as i64 * 16 + x as i64;
            let wz: i64 = chunk_z as i64 * 16 + z as i64;
            let vertex_offset: u32 = vertices.len() as u32;
            let mut vs = create_cube_vertices_selective(wx, y as i64, wz, &tex, &faces);
            let mut is = create_cube_indices_selective(&faces, vertex_offset);
            vertices.append(&mut vs);
            indices.append(&mut is);
            proof {
                assert(cellvs.len() as int / 4 == faces@.len());
            }
        } else {
            proof {
                assert(cellvs =~= Seq::<Vertex>::empty());
                assert(final(indices)@ =~= old(indices)@ + spec_selective_indices(
                    old(vertices)@.len() as int,
                    0,
                ));
            }
        }
    } else {
        proof {
            assert(cellvs =~= Seq::<Vertex>::empty());
            assert(final(vertices)@ =~= old(vertices)@ + cellvs);
            assert(final(indices)@ =~= old(indices)@ + spec_selective_indices(
                old(vertices)@.len() as int,
                0,
            ));
        }
    }
}

/// Walk every cell of the chunk and emit a quad for each visible face of
/// each non-air block: the Mesh Builder. Neighbor chunks that are absent are
/// treated as open air, so boundary faces are rendered when in doubt.
pub fn build_chunk_mesh(
    reg: &BlockRegistry,
    chunk_x: i32,
    chunk_z: i32,
    blocks: &ChunkBlocks,
    neg_x: Option<&ChunkBlocks>,
    pos_x: Option<&ChunkBlocks>,
    neg_z: Option<&ChunkBlocks>,
    pos_z: Option<&ChunkBlocks>,
) -> (r: ChunkData)
    requires
        reg.wf(),
        blocks.wf(),
        (neg_x matches Option::Some(c) ==> c.wf()),
        (pos_x matches Option::Some(c) ==> c.wf()),
        (neg_z matches Option::Some(c) ==> c.wf()),
        (pos_z matches Option::Some(c) ==> c.wf()),
        -100_000_000 <= chunk_x <= 100_000_000,
        -100_000_000 <= chunk_z <= 100_000_000,
    ensures
        r.vertices@ == spec_mesh_vertices(
            reg,
            chunk_x as int,
            chunk_z as int,
            blocks.view(),
            opt_view(neg_x),
            opt_view(pos_x),
            opt_view(neg_z),
            opt_view(pos_z),
        ),
        r.indices@ == spec_mesh_indices(
            reg,
            chunk_x as int,
            chunk_z as int,
            blocks.view(),
            opt_view(neg_x),
            opt_view(pos_x),
            opt_view(neg_z),
            opt_view(pos_z),
        ),
{
    let ghost gnx = opt_view(neg_x);
    let ghost gpx = opt_view(pos_x);
    let ghost gnz = opt_view(neg_z);
    let ghost gpz = opt_view(pos_z);
    let mut vertices: Vec<Vertex> = Vec::new();
    let mut indices: Vec<u32> = Vec::new();
    let mut x: usize = 0;
    while x < 16
        invariant
            x <= 16,
            reg.wf(),
            blocks.wf(),
            (neg_x matches Option::Some(c) ==> c.wf()),
            (pos_x matches Option::Some(c) ==> c.wf()),
            (neg_z matches Option::Some(c) ==> c.wf()),
            (pos_z matches Option::Some(c) ==> c.wf()),
            gnx == opt_view(neg_x),
            gpx == opt_view(pos_x),
            gnz == opt_view(neg_z),
            gpz == opt_view(pos_z),
            -100_000_000 <= chunk_x <= 100_000_000,
            -100_000_000 <= chunk_z <= 100_000_000,
            vertices@ == spec_mesh_vertices_upto(
                reg,
                chunk_x as int,
                chunk_z as int,
                blocks.view(),
                gnx,
                gpx,
                gnz,
                gpz,
                x * 4080,
            ),
            indices@ == spec_mesh_indices_upto(
                reg,
                chunk_x as int,
                chunk_z as int,
                blocks.view(),
                gnx,
                gpx,
                gnz,
                gpz,
                x * 4080,
            ),
            vertices@.len() <= 24 * (x * 4080),
        decreases 16 - x,
    {
        let mut z: usize = 0;
        while z < 16
            invariant
                x < 16,
                z <= 16,
                reg.wf(),
                blocks.wf(),
                (neg_x matches Option::Some(c) ==> c.wf()),
                (pos_x matches Option::Some(c) ==> c.wf()),
                (neg_z matches Option::Some(c) ==> c.wf()),
                (pos_z matches Option::Some(c) ==> c.wf()),
                gnx == opt_view(neg_x),
                gpx == opt_view(pos_x),
                gnz == opt_view(neg_z),
                gpz == opt_view(pos_z),
                -100_000_000 <= chunk_x <= 100_000_000,
                -100_000_000 <= chunk_z <= 100_000_000,
                vertices@ == spec_mesh_vertices_upto(
                    reg,
                    chunk_x as int,
                    chunk_z as int,
                    blocks.view(),
                    gnx,
                    gpx,
                    gnz,
                    gpz,
                    x * 4080 + z * 255,
                ),
                indices@ == spec_mesh_indices_upto(
                    reg,
                    chunk_x as int,
                    chunk_z as int,
                    blocks.view(),
                    gnx,
                    gpx,
                    gnz,
                    gpz,
                    x * 4080 + z * 255,
                ),
                vertices@.len() <= 24 * (x * 4080 + z * 255),
            decreases 16 - z,
        {
            let mut y: usize = 0;
            while y < 255
                invariant
                    x < 16,
                    z < 16,
                    y <= 255,
                    reg.wf(),
                    blocks.wf(),
                    (neg_x matches Option::Some(c) ==> c.wf()),
                    (pos_x matches Option::Some(c) ==> c.wf()),
                    (neg_z matches Option::Some(c) ==> c.wf()),
                    (pos_z matches Option::Some(c) ==> c.wf()),
                    gnx == opt_view(neg_x),
                    gpx == opt_view(pos_x),
                    gnz == opt_view(neg_z),
                    gpz == opt_view(pos_z),
                    -100_000_000 <= chunk_x <= 100_000_000,
                    -100_000_000 <= chunk_z <= 100_000_000,
                    vertices@ == spec_mesh_vertices_upto(
                        reg,
                        chunk_x as int,
                        chunk_z as int,
                        blocks.view(),
                        gnx,
                        gpx,
                        gnz,
                        gpz,
                        x * 4080 + z * 255 + y,
                    ),
                    indices@ == spec_mesh_indices_upto(
                        reg,
                        chunk_x as int,
                        chunk_z as int,
                        blocks.view(),
                        gnx,
                        gpx,
                        gnz,
                        gpz,
                        x * 4080 + z * 255 + y,
                    ),
                    vertices@.len() <= 24 * (x * 4080 + z * 255 + y),
                decreases 255 - y,
            {
                let ghost n = x * 4080 + z * 255 + y;
                proof {
                    assert(spec_cell_index(x as int, z as int, y as int) == n)
                        by (nonlinear_arith)
                        requires
                            n == x * 4080 + z * 255 + y,
                    {}
                    lemma_scan_coords(x as int, z as int, y as int);
                }
                emit_cell(
                    reg,
                    chunk_x,
                    chunk_z,
                    blocks,
                    neg_x,
                    pos_x,
                    neg_z,
                    pos_z,
                    x,
                    z,
                    y,
                    &mut vertices,
                    &mut indices,
                );
                proof {
                    lemma_mesh_upto_step(
                        reg,
                        chunk_x as int,
                        chunk_z as int,
                        blocks.view(),
                        gnx,
                        gpx,
                        gnz,
                        gpz,
                        n as int,
                    );
                }
                y = y + 1;
            }
            z = z + 1;
        }
        x = x + 1;
    }
    ChunkData { vertices, indices }
}

/// Unfold one step of the mesh recursions.
proof fn lemma_mesh_upto_step(
    reg: &BlockRegistry,
    chunk_x: int,
    chunk_z: int,
    cells: Seq<BlockType>,
    nxs: Option<Seq<BlockType>>,
    pxs: Option<Seq<BlockType>>,
    nzs: Option<Seq<BlockType>>,
    pzs: Option<Seq<BlockType>>,
    n: int,
)
    requires
        n >= 0,
    ensures
        spec_mesh_vertices_upto(reg, chunk_x, chunk_z, cells, nxs, pxs, nzs, pzs, n + 1)
            == spec_mesh_vertices_upto(reg, chunk_x, chunk_z, cells, nxs, pxs, nzs, pzs, n)
            + spec_cell_vertices(
            reg,
            chunk_x,
            chunk_z,
            cells,
            nxs,
            pxs,
            nzs,
            pzs,
            spec_scan_x(n),
            spec_scan_z(n),
            spec_scan_y(n),
        ),
        spec_mesh_indices_upto(reg, chunk_x, chunk_z, cells, nxs, pxs, nzs, pzs, n + 1)
            == spec_mesh_indices_upto(reg, chunk_x, chunk_z, cells, nxs, pxs, nzs, pzs, n)
            + spec_selective_indices(
            spec_mesh_vertices_upto(reg, chunk_x, chunk_z, cells, nxs, pxs, nzs, pzs, n).len()
                as int,
            spec_cell_vertices(
                reg,
                chunk_x,
                chunk_z,
                cells,
                nxs,
                pxs,
                nzs,
                pzs,
                spec_scan_x(n),
                spec_scan_z(n),
                spec_scan_y(n),
            ).len() as int / 4,
        ),
{
}

proof fn lemma_selected_vertices_exact_len(
    x: int,
    y: int,
    z: int,
    tex: crate::voxel::FaceTextures,
    faces: Seq<usize>,
)
    requires
        forall|i: int| 0 <= i < faces.len() ==> (#[trigger] faces[i]) < 6,
    ensures
        spec_selected_vertices(x, y, z, tex, faces).len() == 4 * faces.len(),
    decreases faces.len(),
{
    if faces.len() > 0 {
        assert(forall|i: int|
            0 <= i < faces.drop_last().len() ==> (#[trigger] faces.drop_last()[i]) < 6);
        lemma_selected_vertices_exact_len(x, y, z, tex, faces.drop_last());
    }
}

/// How many times face number `f` occurs in a face list.
pub open spec fn spec_face_count(faces: Seq<usize>, f: usize) -> int
    decreases faces.len(),
{
    if faces.len() == 0 {
        0
    } else {
        spec_face_count(faces.drop_last(), f) + (if faces.last() == f {
            1int
        } else {
            0
        })
    }
}

/// Each face number below `k` occurs in the visible-face list exactly once
/// when visible and never otherwise.
pub proof fn lemma_faces_upto_count(
    cells: Seq<BlockType>,
    nxs: Option<Seq<BlockType>>,
    pxs: Option<Seq<BlockType>>,
    nzs: Option<Seq<BlockType>>,
    pzs: Option<Seq<BlockType>>,
    x: int,
    z: int,
    y: int,
    f: usize,
    k: int,
)
    requires
        k <= 6,
    ensures
        spec_face_count(spec_faces_upto(cells, nxs, pxs, nzs, pzs, x, z, y, k), f) == (if f < k
            && spec_face_visible(cells, nxs, pxs, nzs, pzs, x, z, y, f as int) {
            1int
        } else {
            0
        }),
    decreases k,
{
    if k > 0 {
        lemma_faces_upto_count(cells, nxs, pxs, nzs, pzs, x, z, y, f, k - 1);
        let prev = spec_faces_upto(cells, nxs, pxs, nzs, pzs, x, z, y, k - 1);
        if spec_face_visible(cells, nxs, pxs, nzs, pzs, x, z, y, k - 1) {
            let cur = prev + seq![(k - 1) as usize];
            assert(spec_faces_upto(cells, nxs, pxs, nzs, pzs, x, z, y, k) == cur);
            assert(cur.drop_last() =~= prev);
            assert(cur.last() == (k - 1) as usize);
            assert(spec_face_count(cur, f) == spec_face_count(prev, f) + (if cur.last() == f {
                1int
            } else {
                0
            }));
            if f == k - 1 {
                assert(cur.last() == f);
            } else {
                assert(cur.last() != f);
            }
        } else {
            assert(prev + Seq::<usize>::empty() =~= prev);
        }
    }
}

/// Meshing is idempotent: rebuilding the mesh of an unchanged block array,
/// under the same registry and neighbor occupancy, yields byte-identical
/// vertex and index buffers, because the mesh is a pure function of them.
pub proof fn lemma_mesh_idempotent(
    reg1: &BlockRegistry,
    reg2: &BlockRegistry,
    chunk_x: int,
    chunk_z: int,
    cells: Seq<BlockType>,
    nxs: Option<Seq<BlockType>>,
    pxs: Option<Seq<BlockType>>,
    nzs: Option<Seq<BlockType>>,
    pzs: Option<Seq<BlockType>>,
    v1: Seq<Vertex>,
    v2: Seq<Vertex>,
    i1: Seq<u32>,
    i2: Seq<u32>,
)
    requires
        reg1 == reg2,
        v1 == spec_mesh_vertices(reg1, chunk_x, chunk_z, cells, nxs, pxs, nzs, pzs),
        v2 == spec_mesh_vertices(reg2, chunk_x, chunk_z, cells, nxs, pxs, nzs, pzs),
        i1 == spec_mesh_indices(reg1, chunk_x, chunk_z, cells, nxs, pxs, nzs, pzs),
        i2 == spec_mesh_indices(reg2, chunk_x, chunk_z, cells, nxs, pxs, nzs, pzs),
    ensures
        v1 == v2,
        i1 == i2,
{
}

/// Boundary continuity: when two horizontally adjacent chunks are both
/// resident, a solid block on the shared edge of the first with air just
/// across the boundary in the second has its touching face emitted exactly
/// once - the solid cell lists the face toward the neighbor once, and the
/// air cell across the boundary contributes no geometry at all.
pub proof fn lemma_boundary_face_once(
    reg: &BlockRegistry,
    chunk_x2: int,
    chunk_z2: int,
    cells1: Seq<BlockType>,
    cells2: Seq<BlockType>,
    nxs1: Option<Seq<BlockType>>,
    nzs1: Option<Seq<BlockType>>,
    pzs1: Option<Seq<BlockType>>,
    nxs2: Option<Seq<BlockType>>,
    pxs2: Option<Seq<BlockType>>,
    nzs2: Option<Seq<BlockType>>,
    pzs2: Option<Seq<BlockType>>,
    z: int,
    y: int,
)
    requires
        0 <= z < 16,
        0 <= y < 255,
        cells1[spec_cell_index(15, z, y)] != BlockType::Air,
        cells2[spec_cell_index(0, z, y)] == BlockType::Air,
    ensures
        spec_face_count(
            spec_cell_faces(cells1, nxs1, Option::Some(cells2), nzs1, pzs1, 15, z, y),
            3,
        ) == 1,
        spec_cell_vertices(
            reg,
            chunk_x2,
            chunk_z2,
            cells2,
            nxs2,
            pxs2,
            nzs2,
            pzs2,
            0,
            z,
            y,
        ) == Seq::<Vertex>::empty(),
{
    lemma_faces_upto_count(
        cells1,
        nxs1,
        Option::Some(cells2),
        nzs1,
        pzs1,
        15,
        z,
        y,
        3,
        6,
    );
}


} // verus!
