use eqloader::document::Document;
use eqloader::error::WldError;
use eqloader::fragment::{
    Bits3, DmSpriteDef, DmSpriteDef2, Face, Fragment, FragmentRef, MaterialDef, MaterialPalette,
    StringReference,
};
use eqloader::mesh::{expand_skin, f32_bits_value, material_groups, run_materials, Coord, Dyadic, MaterialGroup, S3DMesh};

fn dyadic(d: Dyadic) -> f64 {
    d.mantissa as f64 * 2f64.powi(d.exponent)
}

fn value(c: Coord) -> f64 {
    match c {
        Coord::Exact(d) => dyadic(d),
        Coord::NonFinite(bits) => f32::from_bits(bits) as f64,
    }
}

fn face(a: u16, b: u16, c: u16) -> Face {
    Face { flags: 0, vertex_indexes: (a, b, c) }
}

fn zero_center() -> Bits3 {
    Bits3 { x: 0, y: 0, z: 0 }
}

fn quantized(positions: Vec<(i16, i16, i16)>, scale: u16) -> DmSpriteDef2 {
    DmSpriteDef2 {
        name_reference: StringReference(0),
        flags: 0,
        material_list_ref: FragmentRef::Index(1),
        center: zero_center(),
        scale,
        positions,
        vertex_normals: vec![(127, 0, 0)],
        vertex_colors: vec![],
        texture_coordinates: vec![(128, -256)],
        skin_assignment_groups: vec![(1, 0)],
        faces: vec![face(0, 0, 0), face(0, 0, 0), face(0, 0, 0)],
        face_material_groups: vec![(2, 0), (1, 1)],
    }
}

fn mesh_doc() -> Document {
    let m = quantized(vec![(400, 0, 0)], 2);
    let frags = vec![
        Fragment::MaterialPalette(MaterialPalette {
            name_reference: StringReference(0),
            fragments: vec![FragmentRef::Index(3), FragmentRef::Index(3)],
        }),
        Fragment::DmSpriteDef2(m),
        Fragment::MaterialDef(MaterialDef {
            name_reference: StringReference(0),
            flags: 0,
            render_method: 1,
            reference: FragmentRef::Index(9),
        }),
    ];
    Document::new(frags, vec![0])
}

#[test]
fn quantized_vertex_is_scaled_by_power_of_two() {
    let doc = mesh_doc();
    let mesh = S3DMesh::load(&doc, 2).unwrap().decode(&doc);
    let v = mesh.vertices[0];
    assert_eq!(v.x, Coord::Exact(Dyadic { mantissa: 400, exponent: -2 }));
    assert_eq!(value(v.x), 100.0);
    assert_eq!(value(v.y), 0.0);
    assert_eq!(value(mesh.uvs[0].u), 0.5);
    assert_eq!(value(mesh.uvs[0].v), -1.0);
    assert_eq!(mesh.normals, vec![(127, 0, 0)]);
}

#[test]
fn skin_runs_expand_to_one_bone_per_vertex() {
    assert_eq!(expand_skin(&vec![(3, 0), (2, 1)]), vec![0, 0, 0, 1, 1]);
    assert_eq!(expand_skin(&vec![]), Vec::<u16>::new());
    let mut m = quantized(vec![(0, 0, 0); 5], 0);
    m.skin_assignment_groups = vec![(3, 0), (2, 1)];
    let doc = Document::new(vec![Fragment::DmSpriteDef2(m)], vec![0]);
    let mesh = S3DMesh::load(&doc, 1).unwrap().decode(&doc);
    assert_eq!(mesh.bone_indices, vec![0, 0, 0, 1, 1]);
    assert!(!mesh.skin_mismatch);
}

#[test]
fn material_groups_partition_the_faces() {
    let (groups, mismatch) = material_groups(&vec![(2, 0), (3, 4), (1, 2)], 6);
    assert!(!mismatch);
    assert_eq!(
        groups,
        vec![
            MaterialGroup { start: 0, count: 2, material: 0 },
            MaterialGroup { start: 2, count: 3, material: 4 },
            MaterialGroup { start: 5, count: 1, material: 2 },
        ]
    );
    let total: usize = groups.iter().map(|g| g.count).sum();
    assert_eq!(total, 6);
}

#[test]
fn material_group_mismatch_is_flagged_and_truncated() {
    let (groups, mismatch) = material_groups(&vec![(2, 0), (3, 1)], 4);
    assert!(mismatch);
    assert_eq!(groups[1], MaterialGroup { start: 2, count: 2, material: 1 });
    let (short, mismatch) = material_groups(&vec![(1, 0)], 4);
    assert!(mismatch);
    assert_eq!(short, vec![MaterialGroup { start: 0, count: 1, material: 0 }]);
}

#[test]
fn decoding_twice_gives_identical_meshes() {
    let doc = mesh_doc();
    let h = S3DMesh::load(&doc, 2).unwrap();
    let a = h.decode(&doc);
    let b = h.decode(&doc);
    assert_eq!(format!("{:?}", a), format!("{:?}", b));
    assert_eq!(a.material_groups.len(), 2);
    assert!(!a.material_group_mismatch);
}

#[test]
fn float_layout_decodes_exactly() {
    let m = DmSpriteDef {
        name_reference: StringReference(0),
        flags: 0,
        material_list_ref: FragmentRef::Index(1),
        center: Bits3 { x: 1.5f32.to_bits(), y: 0, z: (-2.0f32).to_bits() },
        vertices: vec![(100.0f32.to_bits(), 0.25f32.to_bits(), (-3.0f32).to_bits())],
        vertex_normals: vec![],
        vertex_colors: vec![0xff00ff00],
        texture_coordinates: vec![(0.5f32.to_bits(), 1.0f32.to_bits())],
        skin_assignment_groups: vec![],
        faces: vec![face(0, 0, 0)],
        face_material_groups: None,
    };
    let doc = Document::new(vec![Fragment::DmSpriteDef(m.clone())], vec![0]);
    let mesh = S3DMesh::load(&doc, 1).unwrap().decode(&doc);
    assert_eq!(value(mesh.vertices[0].x), 100.0);
    assert_eq!(value(mesh.vertices[0].y), 0.25);
    assert_eq!(value(mesh.vertices[0].z), -3.0);
    assert_eq!(value(mesh.center.x), 1.5);
    assert_eq!(value(mesh.center.z), -2.0);
    assert_eq!(value(mesh.uvs[0].v), 1.0);
    assert!(mesh.material_groups.is_empty());
    assert!(!mesh.material_group_mismatch);
    assert!(mesh.skin_mismatch);
    assert_eq!(mesh.vertex_colors, vec![0xff00ff00]);

}

#[test]
fn non_finite_floats_pass_through() {
    let m = DmSpriteDef {
        name_reference: StringReference(0),
        flags: 0,
        material_list_ref: FragmentRef::Index(1),
        center: Bits3 { x: f32::INFINITY.to_bits(), y: 0, z: 0 },
        vertices: vec![(1.0f32.to_bits(), f32::NAN.to_bits(), 0)],
        vertex_normals: vec![],
        vertex_colors: vec![],
        texture_coordinates: vec![(f32::NEG_INFINITY.to_bits(), 0.5f32.to_bits())],
        skin_assignment_groups: vec![],
        faces: vec![],
        face_material_groups: None,
    };
    let doc = Document::new(vec![Fragment::DmSpriteDef(m)], vec![0]);
    let mesh = S3DMesh::load(&doc, 1).unwrap().decode(&doc);
    assert_eq!(mesh.center.x, Coord::NonFinite(f32::INFINITY.to_bits()));
    assert_eq!(mesh.vertices[0].y, Coord::NonFinite(f32::NAN.to_bits()));
    assert_eq!(value(mesh.vertices[0].x), 1.0);
    assert_eq!(mesh.uvs[0].u, Coord::NonFinite(f32::NEG_INFINITY.to_bits()));
    assert!(mesh.material_groups.is_empty());
    assert!(!mesh.material_group_mismatch);
}

#[test]
fn float_bits_cover_subnormals_and_infinities() {
    assert_eq!(f32_bits_value(f32::INFINITY.to_bits()), None);
    let tiny = f32::from_bits(1);
    assert_eq!(dyadic(f32_bits_value(tiny.to_bits()).unwrap()), tiny as f64);
    assert_eq!(dyadic(f32_bits_value((-0.0f32).to_bits()).unwrap()), 0.0);
    assert_eq!(dyadic(f32_bits_value(123.456f32.to_bits()).unwrap()), 123.456f32 as f64);
}

#[test]
fn mesh_materials_resolve_through_the_list() {
    let doc = mesh_doc();
    let h = S3DMesh::load(&doc, 2).unwrap();
    assert_eq!(h.materials(&doc).unwrap(), vec![3, 3]);
    let mut broken = doc.clone();
    if let Fragment::MaterialPalette(p) = &mut broken.fragments[0] {
        p.fragments.push(FragmentRef::Index(2));
    }
    assert_eq!(
        h.materials(&broken).unwrap_err(),
        WldError::BrokenReference { via: FragmentRef::Index(2) }
    );
    assert_eq!(h.name(&doc).unwrap(), Vec::<u8>::new());
}

#[test]
fn run_past_material_list_is_broken_reference() {
    let doc = mesh_doc();
    let h = S3DMesh::load(&doc, 2).unwrap();
    assert_eq!(h.group_materials(&doc).unwrap(), vec![3, 3]);
    let mut bad = doc.clone();
    if let Fragment::DmSpriteDef2(m) = &mut bad.fragments[1] {
        m.face_material_groups.push((0, 2));
    }
    assert_eq!(
        h.group_materials(&bad).unwrap_err(),
        WldError::BrokenReference { via: FragmentRef::Index(1) }
    );
    assert_eq!(run_materials(&vec![(4, 1), (2, 0)], &vec![7, 9], FragmentRef::Index(1)), Ok(vec![9, 7]));
}
