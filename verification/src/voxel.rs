use vstd::prelude::*;

verus! {

/// One mesh vertex. Block geometry lives on the integer lattice, so positions,
/// texture corners and outward normals are exact integer data; the renderer
/// widens them to its own floating-point vertex layout.
#[derive(Clone, Copy, PartialEq, Eq, Debug, Structural)]
pub struct Vertex {
    pub x: i64,
    pub y: i64,
    pub z: i64,
    /// Texture coordinate corners, each 0 or 1.
    pub u: u8,
    pub v: u8,
    /// Outward unit normal, each component -1, 0 or 1.
    pub nx: i8,
    pub ny: i8,
    pub nz: i8,
    pub texture_id: u32,
}

/// Texture ids for the six faces of a cube, in the fixed face order
/// front (+Z), back (-Z), left (-X), right (+X), top (+Y), bottom (-Y).
#[derive(Clone, Copy, PartialEq, Eq, Debug, Structural)]
pub struct FaceTextures {
    pub front: u32,
    pub back: u32,
    pub left: u32,
    pub right: u32,
    pub top: u32,
    pub bottom: u32,
}

impl FaceTextures {
    pub open spec fn spec_all_same(texture_id: u32) -> FaceTextures {
        FaceTextures {
            front: texture_id,
            back: texture_id,
            left: texture_id,
            right: texture_id,
            top: texture_id,
            bottom: texture_id,
        }
    }

    pub fn all_same(texture_id: u32) -> (r: FaceTextures)
        ensures
            r == FaceTextures::spec_all_same(texture_id),
    {
        FaceTextures {
            front: texture_id,
            back: texture_id,
            left: texture_id,
            right: texture_id,
            top: texture_id,
            bottom: texture_id,
        }
    }

    pub fn new(front: u32, back: u32, left: u32, right: u32, top: u32, bottom: u32) -> (r:
        FaceTextures)
        ensures
            r == (FaceTextures { front, back, left, right, top, bottom }),
    {
        FaceTextures { front, back, left, right, top, bottom }
    }

    /// The texture id of face `face` in the fixed face order.
    pub open spec fn spec_face(self, face: int) -> u32 {
        if face == 0 {
            self.front
        } else if face == 1 {
            self.back
        } else if face == 2 {
            self.left
        } else if face == 3 {
            self.right
        } else if face == 4 {
            self.top
        } else {
            self.bottom
        }
    }
}

/// The offset of face `face`'s outward direction, in the fixed face order.
pub open spec fn face_offset(face: int) -> (int, int, int) {
    if face == 0 {
        (0, 0, 1)
    } else if face == 1 {
        (0, 0, -1)
    } else if face == 2 {
        (-1, 0, 0)
    } else if face == 3 {
        (1, 0, 0)
    } else if face == 4 {
        (0, 1, 0)
    } else {
        (0, -1, 0)
    }
}

/// The four vertices of face `face` of the unit cube with minimum corner
/// (x, y, z), in the fixed winding order.
pub open spec fn spec_face_vertices(x: int, y: int, z: int, face: int, tex: u32) -> Seq<Vertex> {
    let x0 = x as i64;
    let y0 = y as i64;
    let z0 = z as i64;
    let x1 = (x + 1) as i64;
    let y1 = (y + 1) as i64;
    let z1 = (z + 1) as i64;
    if face == 0 {
        seq![
            Vertex { x: x0, y: y0, z: z1, u: 0, v: 1, nx: 0, ny: 0, nz: 1, texture_id: tex },
            Vertex { x: x1, y: y0, z: z1, u: 1, v: 1, nx: 0, ny: 0, nz: 1, texture_id: tex },
            Vertex { x: x1, y: y1, z: z1, u: 1, v: 0, nx: 0, ny: 0, nz: 1, texture_id: tex },
            Vertex { x: x0, y: y1, z: z1, u: 0, v: 0, nx: 0, ny: 0, nz: 1, texture_id: tex },
        ]
    } else if face == 1 {
        seq![
            Vertex { x: x1, y: y0, z: z0, u: 0, v: 1, nx: 0, ny: 0, nz: -1i8, texture_id: tex },
            Vertex { x: x0, y: y0, z: z0, u: 1, v: 1, nx: 0, ny: 0, nz: -1i8, texture_id: tex },
            Vertex { x: x0, y: y1, z: z0, u: 1, v: 0, nx: 0, ny: 0, nz: -1i8, texture_id: tex },
            Vertex { x: x1, y: y1, z: z0, u: 0, v: 0, nx: 0, ny: 0, nz: -1i8, texture_id: tex },
        ]
    } else if face == 2 {
        seq![
            Vertex { x: x0, y: y0, z: z0, u: 0, v: 1, nx: -1i8, ny: 0, nz: 0, texture_id: tex },
            Vertex { x: x0, y: y0, z: z1, u: 1, v: 1, nx: -1i8, ny: 0, nz: 0, texture_id: tex },
            Vertex { x: x0, y: y1, z: z1, u: 1, v: 0, nx: -1i8, ny: 0, nz: 0, texture_id: tex },
            Vertex { x: x0, y: y1, z: z0, u: 0, v: 0, nx: -1i8, ny: 0, nz: 0, texture_id: tex },
        ]
    } else if face == 3 {
        seq![
            Vertex { x: x1, y: y0, z: z1, u: 0, v: 1, nx: 1, ny: 0, nz: 0, texture_id: tex },
            Vertex { x: x1, y: y0, z: z0, u: 1, v: 1, nx: 1, ny: 0, nz: 0, texture_id: tex },
            Vertex { x: x1, y: y1, z: z0, u: 1, v: 0, nx: 1, ny: 0, nz: 0, texture_id: tex },
            Vertex { x: x1, y: y1, z: z1, u: 0, v: 0, nx: 1, ny: 0, nz: 0, texture_id: tex },
        ]
    } else if face == 4 {
        seq![
            Vertex { x: x0, y: y1, z: z1, u: 0, v: 0, nx: 0, ny: 1, nz: 0, texture_id: tex },
            Vertex { x: x1, y: y1, z: z1, u: 1, v: 0, nx: 0, ny: 1, nz: 0, texture_id: tex },
            Vertex { x: x1, y: y1, z: z0, u: 1, v: 1, nx: 0, ny: 1, nz: 0, texture_id: tex },
            Vertex { x: x0, y: y1, z: z0, u: 0, v: 1, nx: 0, ny: 1, nz: 0, texture_id: tex },
        ]
    } else {
        seq![
            Vertex { x: x0, y: y0, z: z0, u: 0, v: 0, nx: 0, ny: -1i8, nz: 0, texture_id: tex },
            Vertex { x: x1, y: y0, z: z0, u: 1, v: 0, nx: 0, ny: -1i8, nz: 0, texture_id: tex },
            Vertex { x: x1, y: y0, z: z1, u: 1, v: 1, nx: 0, ny: -1i8, nz: 0, texture_id: tex },
            Vertex { x: x0, y: y0, z: z1, u: 0, v: 1, nx: 0, ny: -1i8, nz: 0, texture_id: tex },
        ]
    }
}

/// The vertices of the faces listed in `faces`, concatenated in list order.
pub open spec fn spec_selected_vertices(
    x: int,
    y: int,
    z: int,
    tex: FaceTextures,
    faces: Seq<usize>,
) -> Seq<Vertex>
    decreases faces.len(),
{
    if faces.len() == 0 {
        Seq::empty()
    } else {
        spec_selected_vertices(x, y, z, tex, faces.drop_last()) + (if faces.last() < 6 {
            spec_face_vertices(x, y, z, faces.last() as int, tex.spec_face(faces.last() as int))
        } else {
            Seq::empty()
        })
    }
}

/// Push the four vertices of one face.
fn push_face_vertices(out: &mut Vec<Vertex>, x: i64, y: i64, z: i64, face: usize, tex: u32)
    requires
        face < 6,
        -0x4000_0000_0000_0000 <= x < 0x4000_0000_0000_0000,
        0 <= y < 0x4000_0000_0000_0000,
        -0x4000_0000_0000_0000 <= z < 0x4000_0000_0000_0000,
    ensures
        final(out)@ == old(out)@ + spec_face_vertices(x as int, y as int, z as int, face as int, tex),
{
    let x0 = x;
    let y0 = y;
    let z0 = z;
    let x1 = x + 1;
    let y1 = y + 1;
    let z1 = z + 1;
    if face == 0 {
        out.push(Vertex { x: x0, y: y0, z: z1, u: 0, v: 1, nx: 0, ny: 0, nz: 1, texture_id: tex });
        out.push(Vertex { x: x1, y: y0, z: z1, u: 1, v: 1, nx: 0, ny: 0, nz: 1, texture_id: tex });
        out.push(Vertex { x: x1, y: y1, z: z1, u: 1, v: 0, nx: 0, ny: 0, nz: 1, texture_id: tex });
        out.push(Vertex { x: x0, y: y1, z: z1, u: 0, v: 0, nx: 0, ny: 0, nz: 1, texture_id: tex });
    } else if face == 1 {
        out.push(Vertex { x: x1, y: y0, z: z0, u: 0, v: 1, nx: 0, ny: 0, nz: -1i8, texture_id: tex });
        out.push(Vertex { x: x0, y: y0, z: z0, u: 1, v: 1, nx: 0, ny: 0, nz: -1i8, texture_id: tex });
        out.push(Vertex { x: x0, y: y1, z: z0, u: 1, v: 0, nx: 0, ny: 0, nz: -1i8, texture_id: tex });
        out.push(Vertex { x: x1, y: y1, z: z0, u: 0, v: 0, nx: 0, ny: 0, nz: -1i8, texture_id: tex });
    } else if face == 2 {
        out.push(Vertex { x: x0, y: y0, z: z0, u: 0, v: 1, nx: -1i8, ny: 0, nz: 0, texture_id: tex });
        out.push(Vertex { x: x0, y: y0, z: z1, u: 1, v: 1, nx: -1i8, ny: 0, nz: 0, texture_id: tex });
        out.push(Vertex { x: x0, y: y1, z: z1, u: 1, v: 0, nx: -1i8, ny: 0, nz: 0, texture_id: tex });
        out.push(Vertex { x: x0, y: y1, z: z0, u: 0, v: 0, nx: -1i8, ny: 0, nz: 0, texture_id: tex });
    } else if face == 3 {
        out.push(Vertex { x: x1, y: y0, z: z1, u: 0, v: 1, nx: 1, ny: 0, nz: 0, texture_id: tex });
        out.push(Vertex { x: x1, y: y0, z: z0, u: 1, v: 1, nx: 1, ny: 0, nz: 0, texture_id: tex });
        out.push(Vertex { x: x1, y: y1, z: z0, u: 1, v: 0, nx: 1, ny: 0, nz: 0, texture_id: tex });
        out.push(Vertex { x: x1, y: y1, z: z1, u: 0, v: 0, nx: 1, ny: 0, nz: 0, texture_id: tex });
    } else if face == 4 {
        out.push(Vertex { x: x0, y: y1, z: z1, u: 0, v: 0, nx: 0, ny: 1, nz: 0, texture_id: tex });
        out.push(Vertex { x: x1, y: y1, z: z1, u: 1, v: 0, nx: 0, ny: 1, nz: 0, texture_id: tex });
        out.push(Vertex { x: x1, y: y1, z: z0, u: 1, v: 1, nx: 0, ny: 1, nz: 0, texture_id: tex });
        out.push(Vertex { x: x0, y: y1, z: z0, u: 0, v: 1, nx: 0, ny: 1, nz: 0, texture_id: tex });
    } else {
        out.push(Vertex { x: x0, y: y0, z: z0, u: 0, v: 0, nx: 0, ny: -1i8, nz: 0, texture_id: tex });
        out.push(Vertex { x: x1, y: y0, z: z0, u: 1, v: 0, nx: 0, ny: -1i8, nz: 0, texture_id: tex });
        out.push(Vertex { x: x1, y: y0, z: z1, u: 1, v: 1, nx: 0, ny: -1i8, nz: 0, texture_id: tex });
        out.push(Vertex { x: x0, y: y0, z: z1, u: 0, v: 1, nx: 0, ny: -1i8, nz: 0, texture_id: tex });
    }
    assert(out@ =~= old(out)@ + spec_face_vertices(
        x as int,
        y as int,
        z as int,
        face as int,
        tex,
    ));
}

/// Vertices of the requested cube faces, four per listed face, in list order;
/// a face number outside 0..6 contributes nothing.
pub fn create_cube_vertices_selective(
    x: i64,
    y: i64,
    z: i64,
    texture_ids: &FaceTextures,
    faces_to_render: &Vec<usize>,
) -> (r: Vec<Vertex>)
    requires
        -0x4000_0000_0000_0000 <= x < 0x4000_0000_0000_0000,
        0 <= y < 0x4000_0000_0000_0000,
        -0x4000_0000_0000_0000 <= z < 0x4000_0000_0000_0000,
    ensures
        r@ == spec_selected_vertices(x as int, y as int, z as int, *texture_ids, faces_to_render@),
{
    let mut vertices: Vec<Vertex> = Vec::new();
    let mut i: usize = 0;
    while i < faces_to_render.len()
        invariant
            i <= faces_to_render@.len(),
            -0x4000_0000_0000_0000 <= x < 0x4000_0000_0000_0000,
            0 <= y < 0x4000_0000_0000_0000,
            -0x4000_0000_0000_0000 <= z < 0x4000_0000_0000_0000,
            vertices@ == spec_selected_vertices(
                x as int,
                y as int,
                z as int,
                *texture_ids,
                faces_to_render@.take(i as int),
            ),
        decreases faces_to_render@.len() - i,
    {
        let face = faces_to_render[i];
        proof {
            assert(faces_to_render@.take(i + 1).drop_last() =~= faces_to_render@.take(i as int));
            assert(faces_to_render@.take(i + 1).last() == faces_to_render@[i as int]);
        }
        if face < 6 {
            let tex: u32 = if face == 0 {
                texture_ids.front
            } else if face == 1 {
                texture_ids.back
            } else if face == 2 {
                texture_ids.left
            } else if face == 3 {
                texture_ids.right
            } else if face == 4 {
                texture_ids.top
            } else {
                texture_ids.bottom
            };
            push_face_vertices(&mut vertices, x, y, z, face, tex);
        }
        i = i + 1;
    }
    proof {
        assert(faces_to_render@.take(faces_to_render@.len() as int) =~= faces_to_render@);
    }
    vertices
}


/// The face numbers of a full cube, in the fixed face order.
pub open spec fn spec_all_faces() -> Seq<usize> {
    seq![0usize, 1usize, 2usize, 3usize, 4usize, 5usize]
}

/// Vertices of a full six-face cube with per-face textures, four vertices
/// per face in the fixed face order.
pub fn create_cube_vertices_minecraft(x: i64, y: i64, z: i64, texture_ids: &FaceTextures) -> (r:
    Vec<Vertex>)
    requires
        -0x4000_0000_0000_0000 <= x < 0x4000_0000_0000_0000,
        0 <= y < 0x4000_0000_0000_0000,
        -0x4000_0000_0000_0000 <= z < 0x4000_0000_0000_0000,
    ensures
        r@ == spec_selected_vertices(x as int, y as int, z as int, *texture_ids, spec_all_faces()),
{
    let faces: Vec<usize> = vec![0, 1, 2, 3, 4, 5];
    proof {
        assert(faces@ =~= spec_all_faces());
    }
    create_cube_vertices_selective(x, y, z, texture_ids, &faces)
}

/// Vertices of a full cube with one texture on every face.
pub fn create_cube_vertices(x: i64, y: i64, z: i64, texture_id: u32) -> (r: Vec<Vertex>)
    requires
        -0x4000_0000_0000_0000 <= x < 0x4000_0000_0000_0000,
        0 <= y < 0x4000_0000_0000_0000,
        -0x4000_0000_0000_0000 <= z < 0x4000_0000_0000_0000,
    ensures
        r@ == spec_selected_vertices(
            x as int,
            y as int,
            z as int,
            FaceTextures::spec_all_same(texture_id),
            spec_all_faces(),
        ),
{
    let textures = FaceTextures::all_same(texture_id);
    create_cube_vertices_minecraft(x, y, z, &textures)
}

/// The six triangle-list indices of the quad whose four vertices start at
/// `base`: two triangles in the shared winding order.
pub open spec fn spec_quad_indices(base: int) -> Seq<u32> {
    seq![
        base as u32,
        (base + 1) as u32,
        (base + 2) as u32,
        (base + 2) as u32,
        (base + 3) as u32,
        base as u32,
    ]
}

/// Indices for `count` consecutive quads whose vertices start at `offset`.
pub open spec fn spec_selective_indices(offset: int, count: int) -> Seq<u32>
    decreases count,
{
    if count <= 0 {
        Seq::empty()
    } else {
        spec_selective_indices(offset, count - 1) + spec_quad_indices(offset + 4 * (count - 1))
    }
}

/// Triangle-list indices matching `create_cube_vertices_selective`: six per
/// rendered face, referencing four fresh vertices per face starting at
/// `vertex_offset`.
pub fn create_cube_indices_selective(faces_to_render: &Vec<usize>, vertex_offset: u32) -> (r: Vec<
    u32,
>)
    requires
        vertex_offset + 4 * faces_to_render@.len() <= u32::MAX,
    ensures
        r@ == spec_selective_indices(vertex_offset as int, faces_to_render@.len() as int),
{
    let mut indices: Vec<u32> = Vec::new();
    let mut i: usize = 0;
    while i < faces_to_render.len()
        invariant
            i <= faces_to_render@.len(),
            vertex_offset + 4 * faces_to_render@.len() <= u32::MAX,
            indices@ == spec_selective_indices(vertex_offset as int, i as int),
        decreases faces_to_render@.len() - i,
    {
        let base: u32 = vertex_offset + (i as u32) * 4;
        indices.push(base);
        indices.push(base + 1);
        indices.push(base + 2);
        indices.push(base + 2);
        indices.push(base + 3);
        indices.push(base);
        proof {
            assert(indices@ =~= spec_selective_indices(vertex_offset as int, i + 1));
        }
        i = i + 1;
    }
    indices
}

/// Triangle-list indices for a full six-face cube whose 24 vertices are laid
/// out four per face in the fixed face order.
pub fn create_cube_indices() -> (r: Vec<u16>)
    ensures
        r@ =~= seq![
            0u16, 1u16, 2u16, 2u16, 3u16, 0u16,
            4u16, 5u16, 6u16, 6u16, 7u16, 4u16,
            8u16, 9u16, 10u16, 10u16, 11u16, 8u16,
            12u16, 13u16, 14u16, 14u16, 15u16, 12u16,
            16u16, 17u16, 18u16, 18u16, 19u16, 16u16,
            20u16, 21u16, 22u16, 22u16, 23u16, 20u16,
        ],
{
    vec![
        0, 1, 2, 2, 3, 0,
        4, 5, 6, 6, 7, 4,
        8, 9, 10, 10, 11, 8,
        12, 13, 14, 14, 15, 12,
        16, 17, 18, 18, 19, 16,
        20, 21, 22, 22, 23, 20,
    ]
}

/// Line-list indices for the twelve edges of a cube whose eight corner
/// vertices are numbered bottom ring 0..4 then top ring 4..8.
pub fn create_wireframe_cube_indices() -> (r: Vec<u16>)
    ensures
        r@ =~= seq![
            0u16, 1u16, 1u16, 2u16, 2u16, 3u16, 3u16, 0u16,
            4u16, 5u16, 5u16, 6u16, 6u16, 7u16, 7u16, 4u16,
            0u16, 4u16, 1u16, 5u16, 2u16, 6u16, 3u16, 7u16,
        ],
{
    vec![
        0, 1, 1, 2, 2, 3, 3, 0,
        4, 5, 5, 6, 6, 7, 7, 4,
        0, 4, 1, 5, 2, 6, 3, 7,
    ]
}

} // verus!
