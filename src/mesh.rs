use vstd::prelude::*;

use crate::document::Document;
use crate::error::WldError;
use crate::fragment::{Bits3, DmSpriteDef, DmSpriteDef2, Face, Fragment, FragmentKind, FragmentRef};

verus! {

/// An exact number `mantissa * 2^exponent`. Quantized and single-precision
/// coordinates both decode to it without rounding.
#[derive(Clone, Copy, Debug, PartialEq, Eq, Structural)]
pub struct Dyadic {
    pub mantissa: i32,
    pub exponent: i32,
}

/// One coordinate: its exact value, or, for an infinity or a NaN, the bit
/// pattern it was stored as (passed through unchanged).
#[derive(Clone, Copy, Debug, PartialEq, Eq, Structural)]
pub enum Coord {
    Exact(Dyadic),
    NonFinite(u32),
}

/// A point or direction, in the format's own axis order.
#[derive(Clone, Copy, Debug, PartialEq, Eq, Structural)]
pub struct Vertex {
    pub x: Coord,
    pub y: Coord,
    pub z: Coord,
}

/// A texture coordinate.
#[derive(Clone, Copy, Debug, PartialEq, Eq, Structural)]
pub struct Uv {
    pub u: Coord,
    pub v: Coord,
}

/// A run of consecutive faces drawn with one material: faces
/// `start .. start + count`, and the material's position in the mesh's
/// material list.
#[derive(Clone, Copy, Debug, PartialEq, Eq, Structural)]
pub struct MaterialGroup {
    pub start: usize,
    pub count: usize,
    pub material: u16,
}

/// The value of a single-precision bit pattern, or `None` for an infinity
/// or a NaN.
pub open spec fn f32_spec(bits: u32) -> Option<Dyadic> {
    let e = (bits >> 23u32) & 0xffu32;
    let f = bits & 0x7f_ffffu32;
    if e == 255 {
        None
    } else {
        let m: int = if e == 0 {
            f as int
        } else {
            (f | 0x80_0000u32) as int
        };
        let x: int = if e == 0 {
            -149
        } else {
            e - 150
        };
        Some(Dyadic { mantissa: (if bits >> 31u32 == 1 { -m } else { m }) as i32, exponent: x as i32 })
    }
}

/// A quantized coordinate: `raw * 2^-scale`.
pub open spec fn fixed_spec(raw: i16, scale: u16) -> Dyadic {
    Dyadic { mantissa: raw as i32, exponent: (-(scale as int)) as i32 }
}

/// A quantized texture coordinate: `raw / 256`.
pub open spec fn uv_fixed_spec(p: (i16, i16)) -> Uv {
    Uv { u: Coord::Exact(fixed_spec(p.0, 8)), v: Coord::Exact(fixed_spec(p.1, 8)) }
}

pub open spec fn vertex_fixed_spec(p: (i16, i16, i16), scale: u16) -> Vertex {
    Vertex {
        x: Coord::Exact(fixed_spec(p.0, scale)),
        y: Coord::Exact(fixed_spec(p.1, scale)),
        z: Coord::Exact(fixed_spec(p.2, scale)),
    }
}

/// A single-precision coordinate: exact when finite, else its bits.
pub open spec fn coord_spec(bits: u32) -> Coord {
    match f32_spec(bits) {
        Some(d) => Coord::Exact(d),
        None => Coord::NonFinite(bits),
    }
}

pub open spec fn vertex_float_spec(b: (u32, u32, u32)) -> Vertex {
    Vertex { x: coord_spec(b.0), y: coord_spec(b.1), z: coord_spec(b.2) }
}

pub open spec fn uv_float_spec(p: (u32, u32)) -> Uv {
    Uv { u: coord_spec(p.0), v: coord_spec(p.1) }
}

/// The per-vertex bone indices that skin-assignment runs expand to: each
/// `(count, bone)` run gives `count` copies of `bone`.
pub open spec fn expand_spec(groups: Seq<(u16, u16)>) -> Seq<u16>
    decreases groups.len(),
{
    if groups.len() == 0 {
        Seq::empty()
    } else {
        expand_spec(groups.drop_last()) + Seq::new(groups.last().0 as nat, |_i: int| groups.last().1)
    }
}

/// The sum of the first `k` run lengths.
pub open spec fn run_total(groups: Seq<(u16, u16)>, k: int) -> int
    decreases k,
{
    if k <= 0 {
        0
    } else {
        run_total(groups, k - 1) + groups[k - 1].0
    }
}

pub open spec fn min_int(a: int, b: int) -> int {
    if a < b {
        a
    } else {
        b
    }
}

/// Where run `k` starts among `n` faces (runs past the end are cut short).
pub open spec fn group_start(groups: Seq<(u16, u16)>, n: int, k: int) -> int {
    min_int(run_total(groups, k), n)
}

/// How many faces run `k` covers among `n`.
pub open spec fn group_count(groups: Seq<(u16, u16)>, n: int, k: int) -> int {
    group_start(groups, n, k + 1) - group_start(groups, n, k)
}

/// Decodes a single-precision bit pattern exactly.
pub fn f32_bits_value(bits: u32) -> (r: Option<Dyadic>)
    ensures
        r == f32_spec(bits),
{
    let e = (bits >> 23u32) & 0xffu32;
    let f = bits & 0x7f_ffffu32;
    assert(e <= 0xff) by (bit_vector)
        requires
            e == (bits >> 23u32) & 0xffu32,
    ;
    assert(f <= 0x7f_ffff) by (bit_vector)
        requires
            f == bits & 0x7f_ffffu32,
    ;
    assert((f | 0x80_0000u32) <= 0xff_ffff) by (bit_vector)
        requires
            f <= 0x7f_ffff,
    ;
    if e == 255 {
        return None;
    }
    let m: i32 = if e == 0 {
        f as i32
    } else {
        (f | 0x80_0000u32) as i32
    };
    let x: i32 = if e == 0 {
        -149
    } else {
        e as i32 - 150
    };
    let mantissa = if bits >> 31u32 == 1 {
        -m
    } else {
        m
    };
    Some(Dyadic { mantissa, exponent: x })
}

/// Decodes a single-precision coordinate: exact when finite, else its bits.
pub fn f32_coord(bits: u32) -> (r: Coord)
    ensures
        r == coord_spec(bits),
{
    match f32_bits_value(bits) {
        Some(d) => Coord::Exact(d),
        None => Coord::NonFinite(bits),
    }
}

/// Decodes quantized positions: each component is `raw * 2^-scale`.
pub fn decode_quantized_vertices(positions: &Vec<(i16, i16, i16)>, scale: u16) -> (r: Vec<Vertex>)
    ensures
        r@.len() == positions@.len(),
        forall|i: int| 0 <= i < r@.len() ==> r@[i] == vertex_fixed_spec(#[trigger] positions@[i], scale),
{
    let exponent: i32 = -(scale as i32);
    let mut out: Vec<Vertex> = Vec::new();
    let mut i: usize = 0;
    while i < positions.len()
        invariant
            exponent == -(scale as int),
            i <= positions@.len(),
            out@.len() == i,
            forall|k: int| 0 <= k < i ==> out@[k] == vertex_fixed_spec(#[trigger] positions@[k], scale),
        decreases positions@.len() - i,
    {
        let p = positions[i];
        out.push(
            Vertex {
                x: Coord::Exact(Dyadic { mantissa: p.0 as i32, exponent }),
                y: Coord::Exact(Dyadic { mantissa: p.1 as i32, exponent }),
                z: Coord::Exact(Dyadic { mantissa: p.2 as i32, exponent }),
            },
        );
        i = i + 1;
    }
    out
}

fn decode_bits3(b: (u32, u32, u32)) -> (r: Vertex)
    ensures
        r == vertex_float_spec(b),
{
    Vertex { x: f32_coord(b.0), y: f32_coord(b.1), z: f32_coord(b.2) }
}

/// Decodes single-precision positions: exact values, and the bits of any
/// infinity or NaN passed through.
pub fn decode_float_vertices(vertices: &Vec<(u32, u32, u32)>) -> (r: Vec<Vertex>)
    ensures
        r@.len() == vertices@.len(),
        forall|i: int| 0 <= i < r@.len() ==> r@[i] == vertex_float_spec(#[trigger] vertices@[i]),
{
    let mut out: Vec<Vertex> = Vec::new();
    let mut i: usize = 0;
    while i < vertices.len()
        invariant
            i <= vertices@.len(),
            out@.len() == i,
            forall|k: int| 0 <= k < i ==> out@[k] == vertex_float_spec(#[trigger] vertices@[k]),
        decreases vertices@.len() - i,
    {
        out.push(decode_bits3(vertices[i]));
        i = i + 1;
    }
    out
}

/// Expands skin-assignment runs into one bone index per vertex.
pub fn expand_skin(groups: &Vec<(u16, u16)>) -> (r: Vec<u16>)
    ensures
        r@ == expand_spec(groups@),
{
    let mut out: Vec<u16> = Vec::new();
    let mut i: usize = 0;
    while i < groups.len()
        invariant
            i <= groups@.len(),
            out@ == expand_spec(groups@.subrange(0, i as int)),
        decreases groups@.len() - i,
    {
        let (count, bone) = groups[i];
        let ghost base = out@;
        let mut j: u16 = 0;
        while j < count
            invariant
                j <= count,
                out@ == base + Seq::new(j as nat, |_k: int| bone),
            decreases count - j,
        {
            out.push(bone);
            j = j + 1;
            assert(out@ == base + Seq::new(j as nat, |_k: int| bone));
        }
        assert(groups@.subrange(0, i + 1).drop_last() == groups@.subrange(0, i as int));
        i = i + 1;
    }
    assert(groups@.subrange(0, i as int) == groups@);
    out
}

/// Splits `face_count` faces into the runs that face-material groups give.
/// Runs past the last face are cut short; the flag is set when the run
/// lengths do not add up to the face count.
pub fn material_groups(groups: &Vec<(u16, u16)>, face_count: usize) -> (r: (Vec<MaterialGroup>, bool))
    ensures
        r.0@.len() == groups@.len(),
        forall|k: int|
            0 <= k < groups@.len() ==> {
                let g = #[trigger] r.0@[k];
                &&& g.start == group_start(groups@, face_count as int, k)
                &&& g.count == group_count(groups@, face_count as int, k)
                &&& g.material == groups@[k].1
            },
        r.1 == (run_total(groups@, groups@.len() as int) != face_count),
{
    let mut out: Vec<MaterialGroup> = Vec::new();
    let mut cursor: usize = 0;
    let mut over: bool = false;
    let mut i: usize = 0;
    while i < groups.len()
        invariant
            i <= groups@.len(),
            cursor == group_start(groups@, face_count as int, i as int),
            over == (run_total(groups@, i as int) > face_count),
            out@.len() == i,
            forall|k: int|
                0 <= k < i ==> {
                    let g = #[trigger] out@[k];
                    &&& g.start == group_start(groups@, face_count as int, k)
                    &&& g.count == group_count(groups@, face_count as int, k)
                    &&& g.material == groups@[k].1
                },
        decreases groups@.len() - i,
    {
        let (len, material) = groups[i];
        let start = cursor;
        let next: usize = if over || face_count - cursor < len as usize {
            face_count
        } else {
            cursor + len as usize
        };
        over = over || face_count - cursor < len as usize;
        out.push(MaterialGroup { start, count: next - start, material });
        cursor = next;
        i = i + 1;
    }
    let mismatch = over || cursor != face_count;
    (out, mismatch)
}

/// A canonical mesh, as values.
pub struct MeshView {
    pub flags: u32,
    pub material_list: FragmentRef,
    pub center: Vertex,
    pub vertices: Seq<Vertex>,
    pub normals: Seq<(i8, i8, i8)>,
    pub vertex_colors: Seq<u32>,
    pub uvs: Seq<Uv>,
    pub bone_indices: Seq<u16>,
    pub faces: Seq<Face>,
    pub material_groups: Seq<MaterialGroup>,
    pub material_group_mismatch: bool,
    pub skin_mismatch: bool,
}

/// The canonical form of a mesh, whichever layout it was stored in.
#[derive(Clone, Debug)]
pub struct Mesh {
    pub flags: u32,
    pub material_list: FragmentRef,
    pub center: Vertex,
    pub vertices: Vec<Vertex>,
    pub normals: Vec<(i8, i8, i8)>,
    pub vertex_colors: Vec<u32>,
    pub uvs: Vec<Uv>,
    /// One bone index per vertex; every weight is 1.
    pub bone_indices: Vec<u16>,
    pub faces: Vec<Face>,
    pub material_groups: Vec<MaterialGroup>,
    /// Set when the face-material runs do not add up to the face count.
    pub material_group_mismatch: bool,
    /// Set when the skin runs do not add up to the vertex count.
    pub skin_mismatch: bool,
}

fn copy_vec<T: Copy>(v: &Vec<T>) -> (r: Vec<T>)
    ensures
        r@ == v@,
{
    let mut out: Vec<T> = Vec::new();
    let mut i: usize = 0;
    while i < v.len()
        invariant
            i <= v@.len(),
            out@ == v@.subrange(0, i as int),
        decreases v@.len() - i,
    {
        out.push(v[i]);
        i = i + 1;
        assert(out@ == v@.subrange(0, i as int));
    }
    assert(v@.subrange(0, i as int) == v@);
    out
}

fn decode_center(c: Bits3) -> (r: Vertex)
    ensures
        r == vertex_float_spec((c.x, c.y, c.z)),
{
    decode_bits3((c.x, c.y, c.z))
}

/// Decodes quantized texture coordinates: each component is `raw / 256`.
pub fn decode_quantized_uvs(uvs: &Vec<(i16, i16)>) -> (r: Vec<Uv>)
    ensures
        r@.len() == uvs@.len(),
        forall|i: int| 0 <= i < r@.len() ==> r@[i] == uv_fixed_spec(#[trigger] uvs@[i]),
{
    let mut out: Vec<Uv> = Vec::new();
    let mut i: usize = 0;
    while i < uvs.len()
        invariant
            i <= uvs@.len(),
            out@.len() == i,
            forall|k: int| 0 <= k < i ==> out@[k] == uv_fixed_spec(#[trigger] uvs@[k]),
        decreases uvs@.len() - i,
    {
        let p = uvs[i];
        out.push(
            Uv {
                u: Coord::Exact(Dyadic { mantissa: p.0 as i32, exponent: -8 }),
                v: Coord::Exact(Dyadic { mantissa: p.1 as i32, exponent: -8 }),
            },
        );
        i = i + 1;
    }
    out
}

/// Decodes single-precision texture coordinates, passing through the bits
/// of any infinity or NaN.
pub fn decode_float_uvs(uvs: &Vec<(u32, u32)>) -> (r: Vec<Uv>)
    ensures
        r@.len() == uvs@.len(),
        forall|i: int| 0 <= i < r@.len() ==> r@[i] == uv_float_spec(#[trigger] uvs@[i]),
{
    let mut out: Vec<Uv> = Vec::new();
    let mut i: usize = 0;
    while i < uvs.len()
        invariant
            i <= uvs@.len(),
            out@.len() == i,
            forall|k: int| 0 <= k < i ==> out@[k] == uv_float_spec(#[trigger] uvs@[k]),
        decreases uvs@.len() - i,
    {
        let p = uvs[i];
        out.push(Uv { u: f32_coord(p.0), v: f32_coord(p.1) });
        i = i + 1;
    }
    out
}

/// The canonical form of a quantized-layout mesh.
pub open spec fn decoded_v2(m: DmSpriteDef2, r: Mesh) -> bool {
    &&& ({
        &&& r.flags == m.flags
        &&& r.material_list == m.material_list_ref
        &&& r.center == vertex_float_spec((m.center.x, m.center.y, m.center.z))
        &&& r.vertices@.len() == m.positions@.len()
        &&& forall|i: int|
            0 <= i < r.vertices@.len() ==> r.vertices@[i] == vertex_fixed_spec(
                #[trigger] m.positions@[i],
                m.scale,
            )
        &&& r.normals@ == m.vertex_normals@
        &&& r.vertex_colors@ == m.vertex_colors@
        &&& r.uvs@.len() == m.texture_coordinates@.len()
        &&& forall|i: int|
            0 <= i < r.uvs@.len() ==> r.uvs@[i] == uv_fixed_spec(#[trigger] m.texture_coordinates@[i])
        &&& r.bone_indices@ == expand_spec(m.skin_assignment_groups@)
        &&& r.skin_mismatch == (r.bone_indices@.len() != m.positions@.len())
        &&& r.faces@ == m.faces@
        &&& r.material_groups@.len() == m.face_material_groups@.len()
        &&& forall|k: int|
            0 <= k < r.material_groups@.len() ==> {
                let g = #[trigger] r.material_groups@[k];
                &&& g.start == group_start(m.face_material_groups@, m.faces@.len() as int, k)
                &&& g.count == group_count(m.face_material_groups@, m.faces@.len() as int, k)
                &&& g.material == m.face_material_groups@[k].1
            }
        &&& r.material_group_mismatch == (run_total(
            m.face_material_groups@,
            m.face_material_groups@.len() as int,
        ) != m.faces@.len())
    })
}

/// The canonical form of a single-precision-layout mesh; an older mesh may
/// carry no face-material runs, and then has no groups.
pub open spec fn decoded_v1(m: DmSpriteDef, r: Mesh) -> bool {
    &&& ({
        &&& r.flags == m.flags
        &&& r.material_list == m.material_list_ref
        &&& r.center == vertex_float_spec((m.center.x, m.center.y, m.center.z))
        &&& r.vertices@.len() == m.vertices@.len()
        &&& forall|i: int|
            0 <= i < r.vertices@.len() ==> r.vertices@[i] == vertex_float_spec(
                #[trigger] m.vertices@[i],
            )
        &&& r.normals@ == m.vertex_normals@
        &&& r.vertex_colors@ == m.vertex_colors@
        &&& r.uvs@.len() == m.texture_coordinates@.len()
        &&& forall|i: int|
            0 <= i < r.uvs@.len() ==> r.uvs@[i] == uv_float_spec(#[trigger] m.texture_coordinates@[i])
        &&& r.bone_indices@ == expand_spec(m.skin_assignment_groups@)
        &&& r.skin_mismatch == (r.bone_indices@.len() != m.vertices@.len())
        &&& r.faces@ == m.faces@
        &&& match m.face_material_groups {
            None => r.material_groups@.len() == 0 && !r.material_group_mismatch,
            Some(fg) => {
                &&& r.material_groups@.len() == fg@.len()
                &&& forall|k: int|
                    0 <= k < r.material_groups@.len() ==> {
                        let g = #[trigger] r.material_groups@[k];
                        &&& g.start == group_start(fg@, m.faces@.len() as int, k)
                        &&& g.count == group_count(fg@, m.faces@.len() as int, k)
                        &&& g.material == fg@[k].1
                    }
                &&& r.material_group_mismatch == (run_total(fg@, fg@.len() as int)
                    != m.faces@.len())
            },
        }
    })
}

/// The canonical mesh of the quantized layout.
pub fn decode_dm_sprite_def2(m: &DmSpriteDef2) -> (r: Mesh)
    ensures
        decoded_v2(*m, r),
{
    let center = decode_center(m.center);
    let bone_indices = expand_skin(&m.skin_assignment_groups);
    let skin_mismatch = bone_indices.len() != m.positions.len();
    let (groups, mismatch) = material_groups(&m.face_material_groups, m.faces.len());
    Mesh {
            flags: m.flags,
            material_list: m.material_list_ref,
            center,
            vertices: decode_quantized_vertices(&m.positions, m.scale),
            normals: copy_vec(&m.vertex_normals),
            vertex_colors: copy_vec(&m.vertex_colors),
            uvs: decode_quantized_uvs(&m.texture_coordinates),
            bone_indices,
            faces: copy_vec(&m.faces),
            material_groups: groups,
            material_group_mismatch: mismatch,
            skin_mismatch,
        }
}

/// The canonical mesh of the single-precision layout. An older mesh may
/// carry no face-material runs: it then has no groups.
pub fn decode_dm_sprite_def(m: &DmSpriteDef) -> (r: Mesh)
    ensures
        decoded_v1(*m, r),
{
    let center = decode_center(m.center);
    let vertices = decode_float_vertices(&m.vertices);
    let uvs = decode_float_uvs(&m.texture_coordinates);
    let bone_indices = expand_skin(&m.skin_assignment_groups);
    let skin_mismatch = bone_indices.len() != m.vertices.len();
    let (groups, mismatch) = match &m.face_material_groups {
        Some(fg) => material_groups(fg, m.faces.len()),
        None => (Vec::new(), false),
    };
    Mesh {
            flags: m.flags,
            material_list: m.material_list_ref,
            center,
            vertices,
            normals: copy_vec(&m.vertex_normals),
            vertex_colors: copy_vec(&m.vertex_colors),
            uvs,
            bone_indices,
            faces: copy_vec(&m.faces),
            material_groups: groups,
            material_group_mismatch: mismatch,
            skin_mismatch,
        }
}

impl View for Mesh {
    type V = MeshView;

    open spec fn view(&self) -> MeshView {
        MeshView {
            flags: self.flags,
            material_list: self.material_list,
            center: self.center,
            vertices: self.vertices@,
            normals: self.normals@,
            vertex_colors: self.vertex_colors@,
            uvs: self.uvs@,
            bone_indices: self.bone_indices@,
            faces: self.faces@,
            material_groups: self.material_groups@,
            material_group_mismatch: self.material_group_mismatch,
            skin_mismatch: self.skin_mismatch,
        }
    }
}

/// Decoding a quantized mesh is deterministic: two decodings of the same
/// record give the same canonical mesh, value for value.
pub proof fn lemma_decode_v2_deterministic(m: DmSpriteDef2, x: Mesh, y: Mesh)
    requires
        decoded_v2(m, x),
        decoded_v2(m, y),
    ensures
        x@ == y@,
{
    {
        assert forall|i: int| 0 <= i < x.vertices@.len() implies x.vertices@[i] == y.vertices@[i] by {
            let _p = m.positions@[i];
        }
        assert forall|i: int| 0 <= i < x.uvs@.len() implies x.uvs@[i] == y.uvs@[i] by {
            let _p = m.texture_coordinates@[i];
        }
        assert(x.vertices@ =~= y.vertices@);
        assert(x.uvs@ =~= y.uvs@);
        assert(x.material_groups@ =~= y.material_groups@);
    }
}

/// Decoding a single-precision mesh is deterministic in the same way.
pub proof fn lemma_decode_v1_deterministic(m: DmSpriteDef, x: Mesh, y: Mesh)
    requires
        decoded_v1(m, x),
        decoded_v1(m, y),
    ensures
        x@ == y@,
{
    {
        assert forall|i: int| 0 <= i < x.vertices@.len() implies x.vertices@[i] == y.vertices@[i] by {
            let _p = m.vertices@[i];
        }
        assert forall|i: int| 0 <= i < x.uvs@.len() implies x.uvs@[i] == y.uvs@[i] by {
            let _p = m.texture_coordinates@[i];
        }
        assert(x.vertices@ =~= y.vertices@);
        assert(x.uvs@ =~= y.uvs@);
        assert(x.material_groups@ =~= y.material_groups@);
    }
}

proof fn lemma_run_total_monotone(groups: Seq<(u16, u16)>, j: int, k: int)
    requires
        0 <= j <= k <= groups.len(),
    ensures
        run_total(groups, j) <= run_total(groups, k),
    decreases k - j,
{
    if j < k {
        lemma_run_total_monotone(groups, j, k - 1);
    }
}

/// When the face-material runs of a mesh with `n` faces add up to `n`, the
/// groups partition the faces exactly: the first starts at face 0, each
/// covers its full run length and starts where the one before ends, and the
/// last ends at face `n`.
pub proof fn lemma_material_groups_partition(groups: Seq<(u16, u16)>, n: int)
    requires
        run_total(groups, groups.len() as int) == n,
    ensures
        group_start(groups, n, 0) == 0,
        forall|k: int| 0 <= k < groups.len() ==> #[trigger] group_count(groups, n, k) == groups[k].0,
        forall|k: int|
            0 <= k < groups.len() ==> group_start(groups, n, k + 1) == #[trigger] group_start(
                groups,
                n,
                k,
            ) + group_count(groups, n, k),
        group_start(groups, n, groups.len() as int) == n,
{
    assert forall|k: int| 0 <= k < groups.len() implies #[trigger] group_count(groups, n, k)
        == groups[k].0 by {
        lemma_run_total_monotone(groups, k + 1, groups.len() as int);
        lemma_run_total_monotone(groups, k, k + 1);
    }
    lemma_run_total_monotone(groups, 0, groups.len() as int);
}

/// Whether a fragment kind holds a mesh (of either layout).
pub open spec fn is_mesh_kind(k: FragmentKind) -> bool {
    k == FragmentKind::DmSpriteDef || k == FragmentKind::DmSpriteDef2
}

/// The material-list reference of a mesh fragment.
pub open spec fn material_list_of(f: Fragment) -> FragmentRef {
    match f {
        Fragment::DmSpriteDef(m) => m.material_list_ref,
        Fragment::DmSpriteDef2(m) => m.material_list_ref,
        _ => arbitrary(),
    }
}

/// The 1-based material indices that the first `k` entries of a material
/// list resolve to; an entry that resolves to no material breaks the list.
pub open spec fn palette_upto(doc: Document, refs: Seq<FragmentRef>, k: int) -> Result<Seq<u32>, WldError>
    decreases k,
{
    if k <= 0 {
        Ok(Seq::empty())
    } else {
        match palette_upto(doc, refs, k - 1) {
            Err(e) => Err(e),
            Ok(found) => match doc.spec_resolve(refs[k - 1], FragmentKind::MaterialDef) {
                Err(_) => Err(WldError::BrokenReference { via: refs[k - 1] }),
                Ok(p) => Ok(found.push((p + 1) as u32)),
            },
        }
    }
}

/// The materials of a mesh, by 1-based index, in material-list order.
pub open spec fn mesh_materials_spec(doc: Document, list: FragmentRef) -> Result<Seq<u32>, WldError> {
    match doc.spec_resolve(list, FragmentKind::MaterialPalette) {
        Err(_) => Err(WldError::BrokenReference { via: list }),
        Ok(p) => {
            let refs = match doc.frags()[p] {
                Fragment::MaterialPalette(l) => l.fragments@,
                _ => arbitrary(),
            };
            palette_upto(doc, refs, refs.len() as int)
        },
    }
}

proof fn lemma_palette_err_stays(doc: Document, refs: Seq<FragmentRef>, k: int, n: int)
    requires
        0 < k <= n,
        palette_upto(doc, refs, k) is Err,
    ensures
        palette_upto(doc, refs, n) == palette_upto(doc, refs, k),
    decreases n - k,
{
    if k < n {
        lemma_palette_err_stays(doc, refs, k, n - 1);
    }
}

/// The material-list position that each face-material run of a mesh names.
pub open spec fn run_positions(f: Fragment) -> Seq<u16> {
    match f {
        Fragment::DmSpriteDef2(m) => m.face_material_groups@.map_values(|g: (u16, u16)| g.1),
        Fragment::DmSpriteDef(m) => match m.face_material_groups {
            Some(fg) => fg@.map_values(|g: (u16, u16)| g.1),
            None => Seq::empty(),
        },
        _ => Seq::empty(),
    }
}

/// The material (1-based fragment index) of each run, given the mesh's
/// material list: fails with a broken reference through `list` when a run
/// names a position past the list.
pub fn run_materials(runs: &Vec<(u16, u16)>, materials: &Vec<u32>, list: FragmentRef) -> (res: Result<
    Vec<u32>,
    WldError,
>)
    ensures
        ({
            let pos = runs@.map_values(|g: (u16, u16)| g.1);
            if forall|k: int| 0 <= k < pos.len() ==> (#[trigger] pos[k]) < materials@.len() {
                &&& res is Ok
                &&& res->Ok_0@.len() == pos.len()
                &&& forall|k: int|
                    0 <= k < pos.len() ==> (#[trigger] res->Ok_0@[k]) == materials@[pos[k] as int]
            } else {
                res == Err::<Vec<u32>, WldError>(WldError::BrokenReference { via: list })
            }
        }),
{
    let ghost pos = runs@.map_values(|g: (u16, u16)| g.1);
    let mut out: Vec<u32> = Vec::new();
    let mut k: usize = 0;
    while k < runs.len()
        invariant
            pos == runs@.map_values(|g: (u16, u16)| g.1),
            k <= runs@.len(),
            out@.len() == k,
            forall|j: int| 0 <= j < k ==> pos[j] < materials@.len(),
            forall|j: int| 0 <= j < k ==> (#[trigger] out@[j]) == materials@[pos[j] as int],
        decreases runs@.len() - k,
    {
        let p = runs[k].1 as usize;
        if p >= materials.len() {
            assert(!(pos[k as int] < materials@.len()));
            return Err(WldError::BrokenReference { via: list });
        }
        out.push(materials[p]);
        k = k + 1;
    }
    Ok(out)
}

/// A mesh: a handle on its fragment (of either layout) in a document.
#[derive(Clone, Copy, Debug, PartialEq, Eq, Structural)]
pub struct S3DMesh {
    pub index: u32,
}

impl S3DMesh {
    pub open spec fn valid_in(&self, doc: Document) -> bool {
        &&& 1 <= self.index <= doc.count_spec()
        &&& is_mesh_kind(doc.frags()[self.index - 1].spec_kind())
    }

    /// Opens the mesh at the given 1-based index.
    pub fn load(doc: &Document, index: u32) -> (res: Result<S3DMesh, WldError>)
        ensures
            res is Ok <==> 1 <= index <= doc.count_spec() && is_mesh_kind(
                doc.frags()[index - 1].spec_kind(),
            ),
            res matches Ok(h) ==> h.index == index,
            res matches Err(e) ==> (if index == 0 || index > doc.count_spec() {
                e == WldError::OutOfRange { index, count: doc.fragments@.len() as usize }
            } else {
                e == WldError::TypeMismatch {
                    index,
                    expected: FragmentKind::DmSpriteDef2,
                    actual: doc.frags()[index - 1].spec_kind(),
                }
            }),
    {
        let f = doc.get_by_index(index)?;
        let k = f.kind();
        match k {
            FragmentKind::DmSpriteDef | FragmentKind::DmSpriteDef2 => Ok(S3DMesh { index }),
            _ => Err(WldError::TypeMismatch { index, expected: FragmentKind::DmSpriteDef2, actual: k }),
        }
    }

    /// The mesh that a mesh reference points at by index, if it is one.
    pub fn from_reference(doc: &Document, r: &crate::fragment::DmSprite) -> (res: Option<S3DMesh>)
        ensures
            res is Some <==> (r.reference matches FragmentRef::Index(i) && 1 <= i <= doc.count_spec()
                && is_mesh_kind(doc.frags()[i - 1].spec_kind())),
            res matches Some(h) ==> r.reference == FragmentRef::Index(h.index),
    {
        match r.reference {
            FragmentRef::Index(i) => match S3DMesh::load(doc, i) {
                Ok(h) => Some(h),
                Err(_) => None,
            },
            FragmentRef::Name(_) => None,
        }
    }

    /// The mesh's name.
    pub fn name(&self, doc: &Document) -> (res: Result<Vec<u8>, WldError>)
        requires
            self.valid_in(*doc),
        ensures
            match res {
                Ok(v) => doc.name_or_empty(doc.frags()[self.index - 1].spec_name_reference()) == Ok::<
                    Seq<u8>,
                    WldError,
                >(v@),
                Err(e) => doc.name_or_empty(doc.frags()[self.index - 1].spec_name_reference())
                    == Err::<Seq<u8>, WldError>(e),
            },
    {
        doc.name_of(doc.fragments[self.index as usize - 1].name_reference())
    }

    /// Decodes the mesh into its canonical form.
    pub fn decode(&self, doc: &Document) -> (r: Mesh)
        requires
            self.valid_in(*doc),
        ensures
            match doc.frags()[self.index - 1] {
                Fragment::DmSpriteDef2(m) => decoded_v2(m, r),
                Fragment::DmSpriteDef(m) => decoded_v1(m, r),
                _ => false,
            },
        decreases 0nat,
    {
        match &doc.fragments[self.index as usize - 1] {
            Fragment::DmSpriteDef2(m) => decode_dm_sprite_def2(m),
            Fragment::DmSpriteDef(m) => decode_dm_sprite_def(m),
            _ => {
                // `valid_in` fixes the kind, so this arm is never taken.
                assert(false);
                self.decode(doc)
            },
        }
    }

    /// The material (1-based fragment index) of each face-material run, in
    /// run order. Fails as `materials` does, and with a broken reference
    /// through the material list when a run names a position past it.
    pub fn group_materials(&self, doc: &Document) -> (res: Result<Vec<u32>, WldError>)
        requires
            self.valid_in(*doc),
            doc.count_spec() < 0x1_0000_0000,
        ensures
            ({
                let f = doc.frags()[self.index - 1];
                let list = material_list_of(f);
                let pos = run_positions(f);
                match mesh_materials_spec(*doc, list) {
                    Err(e) => res == Err::<Vec<u32>, WldError>(e),
                    Ok(ms) => if forall|k: int| 0 <= k < pos.len() ==> (#[trigger] pos[k]) < ms.len() {
                        &&& res is Ok
                        &&& res->Ok_0@.len() == pos.len()
                        &&& forall|k: int|
                            0 <= k < pos.len() ==> (#[trigger] res->Ok_0@[k]) == ms[pos[k] as int]
                    } else {
                        res == Err::<Vec<u32>, WldError>(WldError::BrokenReference { via: list })
                    },
                }
            }),
    {
        let mats = self.materials(doc)?;
        let ghost f = doc.frags()[self.index - 1];
        match &doc.fragments[self.index as usize - 1] {
            Fragment::DmSpriteDef2(m) => {
                assert(run_positions(f) =~= m.face_material_groups@.map_values(|g: (u16, u16)| g.1));
                run_materials(&m.face_material_groups, &mats, m.material_list_ref)
            },
            Fragment::DmSpriteDef(m) => match &m.face_material_groups {
                Some(fg) => {
                    assert(run_positions(f) =~= fg@.map_values(|g: (u16, u16)| g.1));
                    run_materials(fg, &mats, m.material_list_ref)
                },
                None => Ok(Vec::new()),
            },
            _ => Err(WldError::MalformedInput),
        }
    }

    /// The mesh's materials, by 1-based fragment index, in the order that
    /// its material groups number them.
    pub fn materials(&self, doc: &Document) -> (res: Result<Vec<u32>, WldError>)
        requires
            self.valid_in(*doc),
            doc.count_spec() < 0x1_0000_0000,
        ensures
            match res {
                Ok(v) => mesh_materials_spec(*doc, material_list_of(doc.frags()[self.index - 1]))
                    == Ok::<Seq<u32>, WldError>(v@),
                Err(e) => mesh_materials_spec(*doc, material_list_of(doc.frags()[self.index - 1]))
                    == Err::<Seq<u32>, WldError>(e),
            },
    {
        let list = match &doc.fragments[self.index as usize - 1] {
            Fragment::DmSpriteDef2(m) => m.material_list_ref,
            Fragment::DmSpriteDef(m) => m.material_list_ref,
            _ => {
                return Err(WldError::MalformedInput);
            },
        };
        let palette = match doc.get_material_palette(list) {
            Ok(l) => l,
            Err(_) => {
                return Err(WldError::BrokenReference { via: list });
            },
        };
        let refs = &palette.fragments;
        let n = refs.len();
        let mut out: Vec<u32> = Vec::new();
        let mut k: usize = 0;
        while k < n
            invariant
                n == refs@.len(),
                doc.count_spec() < 0x1_0000_0000,
                doc.spec_resolve(list, FragmentKind::MaterialPalette) is Ok,
                doc.resolved(list, FragmentKind::MaterialPalette) == Fragment::MaterialPalette(*palette),
                list == material_list_of(doc.frags()[self.index - 1]),
                *refs == palette.fragments,
                k <= n,
                palette_upto(*doc, refs@, k as int) == Ok::<Seq<u32>, WldError>(out@),
            decreases n - k,
        {
            match doc.resolve(refs[k], FragmentKind::MaterialDef) {
                Ok(p) => {
                    out.push((p + 1) as u32);
                },
                Err(_) => {
                    let e = WldError::BrokenReference { via: refs[k] };
                    assert(palette_upto(*doc, refs@, k as int + 1) == Err::<Seq<u32>, WldError>(e));
                    proof {
                        lemma_palette_err_stays(*doc, refs@, k as int + 1, n as int);
                    }
                    return Err(e);
                },
            }
            k = k + 1;
        }
        Ok(out)
    }
}

/// The face flag that marks a face that can be walked through.
pub const PASSABLE_FACE: u16 = 0x10;

/// The faces among the first `k` that collide (are not passable), in order.
pub open spec fn collision_faces_upto(faces: Seq<Face>, k: int) -> Seq<Face>
    decreases k,
{
    if k <= 0 {
        Seq::empty()
    } else if faces[k - 1].flags & PASSABLE_FACE == 0 {
        collision_faces_upto(faces, k - 1).push(faces[k - 1])
    } else {
        collision_faces_upto(faces, k - 1)
    }
}

/// The faces that collide: those without the passable flag, in order.
pub fn collision_faces(faces: &Vec<Face>) -> (r: Vec<Face>)
    ensures
        r@ == collision_faces_upto(faces@, faces@.len() as int),
{
    let mut out: Vec<Face> = Vec::new();
    let mut i: usize = 0;
    while i < faces.len()
        invariant
            i <= faces@.len(),
            out@ == collision_faces_upto(faces@, i as int),
        decreases faces@.len() - i,
    {
        let f = faces[i];
        if f.flags & PASSABLE_FACE == 0 {
            out.push(f);
        }
        i = i + 1;
    }
    out
}

/// The 1-based indices of the meshes (of either layout) among the first `n`
/// fragments.
pub open spec fn mesh_indices_upto(doc: Document, n: int) -> Seq<u32>
    decreases n,
{
    if n <= 0 {
        Seq::empty()
    } else if is_mesh_kind(doc.frags()[n - 1].spec_kind()) {
        mesh_indices_upto(doc, n - 1).push(n as u32)
    } else {
        mesh_indices_upto(doc, n - 1)
    }
}

/// Every mesh of a document, of either layout, in file order.
pub(crate) fn meshes(doc: &Document) -> (r: Vec<S3DMesh>)
    requires
        doc.count_spec() < 0x1_0000_0000,
    ensures
        r@.map_values(|m: S3DMesh| m.index) == mesh_indices_upto(*doc, doc.count_spec()),
        forall|i: int| 0 <= i < r@.len() ==> (#[trigger] r@[i]).valid_in(*doc),
{
    let n = doc.fragments.len();
    let mut out: Vec<S3DMesh> = Vec::new();
    let mut p: usize = 0;
    while p < n
        invariant
            n == doc.count_spec(),
            n < 0x1_0000_0000,
            p <= n,
            out@.map_values(|m: S3DMesh| m.index) == mesh_indices_upto(*doc, p as int),
            forall|i: int| 0 <= i < out@.len() ==> (#[trigger] out@[i]).valid_in(*doc),
        decreases n - p,
    {
        let k = doc.fragments[p].kind();
        if k == FragmentKind::DmSpriteDef || k == FragmentKind::DmSpriteDef2 {
            let ghost before = out@;
            out.push(S3DMesh { index: (p + 1) as u32 });
            assert(out@.map_values(|m: S3DMesh| m.index) == before.map_values(|m: S3DMesh| m.index).push(
                (p + 1) as u32,
            ));
        }
        p = p + 1;
    }
    out
}

} // verus!
