use eqloader::document::Document;
use eqloader::error::WldError;
use eqloader::fragment::{
    Dag, Fragment, FragmentRef, FrameTransform, Frames, HierarchicalSpriteDef, LegacyFrameTransform,
    StringReference, Track, TrackDef,
};
use eqloader::names::{actor_tag, bone_name_from_dag, remove_all, BoneNaming};
use eqloader::skeleton::{doubly_listed_joints, parent_indices, S3DHierSprite};
use eqloader::track::{decode_legacy_translation, decode_translation, Rotation, Translation};

struct Builder {
    frags: Vec<Fragment>,
    strings: Vec<u8>,
}

impl Builder {
    fn new() -> Builder {
        Builder { frags: Vec::new(), strings: vec![0] }
    }

    fn name(&mut self, s: &str) -> StringReference {
        let r = StringReference(-(self.strings.len() as i32));
        self.strings.extend_from_slice(s.as_bytes());
        self.strings.push(0);
        r
    }

    fn push(&mut self, f: Fragment) -> u32 {
        self.frags.push(f);
        self.frags.len() as u32
    }

    /// A track definition with `n` quantized frames, frame `i` shifted by `i`.
    fn trackdef(&mut self, name: &str, n: usize) -> u32 {
        let name_reference = self.name(name);
        let frames = (0..n)
            .map(|i| FrameTransform {
                rotate_denominator: 16384,
                rotate_x_numerator: 0,
                rotate_y_numerator: 0,
                rotate_z_numerator: 0,
                shift_x_numerator: i as i16,
                shift_y_numerator: 2,
                shift_z_numerator: 3,
                shift_denominator: 256,
            })
            .collect();
        self.push(Fragment::TrackDef(TrackDef { name_reference, frames: Frames::Quantized(frames) }))
    }

    fn track(&mut self, name: &str, def: u32, sleep: Option<u32>) -> u32 {
        let name_reference = self.name(name);
        self.push(Fragment::Track(Track { name_reference, reference: FragmentRef::Index(def), sleep }))
    }

    fn dag(&mut self, name: &str, track: u32, subs: Vec<u32>) -> Dag {
        Dag {
            name_reference: self.name(name),
            track_reference: track,
            mesh_or_sprite_reference: 0,
            sub_dags: subs,
        }
    }

    fn skeleton(&mut self, name: &str, dags: Vec<Dag>) -> u32 {
        let name_reference = self.name(name);
        self.push(Fragment::HierarchicalSpriteDef(HierarchicalSpriteDef {
            name_reference,
            dags,
            dm_sprites: vec![],
        }))
    }

    fn done(self) -> Document {
        Document::new(self.frags, self.strings)
    }
}

/// A three-bone skeleton HUM: root -> BI -> BI_L.
fn human() -> (Document, u32) {
    let mut b = Builder::new();
    let d0 = b.trackdef("HUM_TRACKDEF", 1);
    let d1 = b.trackdef("HUMBI_TRACKDEF", 1);
    let d2 = b.trackdef("HUMBI_L_TRACKDEF", 1);
    let t0 = b.track("HUM_TRACK", d0, None);
    let t1 = b.track("HUMBI_TRACK", d1, None);
    let t2 = b.track("HUMBI_L_TRACK", d2, None);
    let dags = vec![
        b.dag("HUM_DAG", t0, vec![1]),
        b.dag("HUMBI_DAG", t1, vec![2]),
        b.dag("HUMBI_L_DAG", t2, vec![]),
    ];
    let s = b.skeleton("HUM_HS_DEF", dags);
    (b.done(), s)
}

#[test]
fn bones_have_generic_names_and_one_root() {
    let (doc, s) = human();
    let sk = S3DHierSprite::load(&doc, s).unwrap();
    assert_eq!(sk.name(&doc).unwrap(), b"HUM_HS_DEF".to_vec());
    assert_eq!(sk.tag(&doc).unwrap(), b"HUM".to_vec());
    let bones = sk.bones(&doc).unwrap();
    assert_eq!(bones.len(), 3);
    let names: Vec<Vec<u8>> = bones.iter().map(|b| b.name().clone()).collect();
    assert_eq!(names, vec![b"ROOT".to_vec(), b"BI".to_vec(), b"BI_L".to_vec()]);
    assert_eq!(bones[2].full_name(), &b"HUMBI_L_DAG".to_vec());
    let parents: Vec<i32> = bones.iter().map(|b| b.parent_index()).collect();
    assert_eq!(parents, vec![-1, 0, 1]);
    assert_eq!(parents.iter().filter(|p| **p == -1).count(), 1);
    assert_eq!(sk.parent_conflict(&doc), Ok(vec![]));
    for (i, b) in bones.iter().enumerate() {
        assert_eq!(b.bone_index(), i as u32);
        assert_eq!(b.attachment(), None);
    }
    assert_eq!(
        bones[0].rest_position(),
        Translation::Quantized { x: 0, y: 2, z: 3, denominator: 256 }
    );
    assert_eq!(bones[0].rest_quaternion(), Rotation::Quantized { x: 0, y: 0, z: 0, w: 16384 });
}

#[test]
fn last_parent_assignment_wins() {
    let mut b = Builder::new();
    let dags = vec![
        b.dag("A", 0, vec![2]),
        b.dag("B", 0, vec![2, 7]),
        b.dag("C", 0, vec![]),
    ];
    assert_eq!(parent_indices(&dags), vec![-1, -1, 1]);
    assert_eq!(doubly_listed_joints(&dags), vec![2]);
}

#[test]
fn missing_rest_track_is_an_error() {
    let mut b = Builder::new();
    let dags = vec![b.dag("HUM_DAG", 5, vec![])];
    let s = b.skeleton("HUM_HS_DEF", dags);
    let doc = b.done();
    let sk = S3DHierSprite::load(&doc, s).unwrap();
    let broken = WldError::BrokenReference { via: FragmentRef::Index(5) };
    assert_eq!(sk.bones(&doc).unwrap_err(), broken);
    assert_eq!(sk.animations(&doc).unwrap_err(), broken);
}

#[test]
fn zero_denominator_translation_is_zero() {
    let t = FrameTransform {
        rotate_denominator: 1,
        rotate_x_numerator: 0,
        rotate_y_numerator: 0,
        rotate_z_numerator: 0,
        shift_x_numerator: 1000,
        shift_y_numerator: -7,
        shift_z_numerator: 12,
        shift_denominator: 0,
    };
    assert_eq!(decode_translation(&t), Translation::Zero);
    let l = LegacyFrameTransform {
        rotate_w: 1.0f32.to_bits(),
        rotate_x: 0,
        rotate_y: 0,
        rotate_z: 0,
        shift_x_numerator: 5.0f32.to_bits(),
        shift_y_numerator: 0,
        shift_z_numerator: 0,
        shift_denominator: (-0.0f32).to_bits(),
    };
    assert_eq!(decode_legacy_translation(&l), Translation::Zero);
    let l2 = LegacyFrameTransform { shift_denominator: 2.0f32.to_bits(), ..l };
    assert_eq!(
        decode_legacy_translation(&l2),
        Translation::Legacy { x: 5.0f32.to_bits(), y: 0, z: 0, denominator: 2.0f32.to_bits() }
    );
}

#[test]
fn prefix_naming_strips_tag_and_underscore() {
    let naming = BoneNaming::detect(&b"ACTORDEF_ELF".to_vec());
    assert_eq!(naming, BoneNaming::Prefix);
    let tag = actor_tag(naming, &b"ACTORDEF_ELF".to_vec());
    assert_eq!(tag, b"ELF".to_vec());
    assert_eq!(bone_name_from_dag(naming, &tag, &b"ELF_HEAD".to_vec()), b"HEAD".to_vec());
    assert_eq!(bone_name_from_dag(naming, &tag, &b"ELF_".to_vec()), b"ROOT".to_vec());
    assert_eq!(BoneNaming::detect(&b"ELF_HS_DEF".to_vec()), BoneNaming::Marker);
}

#[test]
fn remove_all_matches_string_replace() {
    let cases = [("AXBXC", "X"), ("AAAA", "AA"), ("ABAB", "BA"), ("HUMHUM_DAG", "HUM"), ("abc", "")];
    for (s, p) in cases {
        let got = remove_all(&s.as_bytes().to_vec(), &p.as_bytes().to_vec());
        let want = if p.is_empty() { s.to_string() } else { s.replace(p, "") };
        assert_eq!(got, want.as_bytes().to_vec());
    }
}

fn names(anims: &[eqloader::animation::S3DAnimation]) -> Vec<Vec<u8>> {
    anims.iter().map(|a| a.name.clone()).collect()
}

#[test]
fn variant_track_names_a_second_animation() {
    let mut b = Builder::new();
    let d0 = b.trackdef("HUM_BL_R_TRACKDEFDEF", 1);
    let d1 = b.trackdef("D02HUM_BL_R_TRACKDEFDEF", 4);
    let rest = b.track("HUM_BL_R_TRACKDEF", d0, None);
    let _variant = b.track("D02HUM_BL_R_TRACKDEF", d1, Some(50));
    let _other = b.track("HUM_HE_TRACKDEF", d0, None);
    let dags = vec![b.dag("HUMBL_R_DAG", rest, vec![])];
    let s = b.skeleton("HUM_HS_DEF", dags);
    let doc = b.done();
    let anims = S3DHierSprite::load(&doc, s).unwrap().animations(&doc).unwrap();
    assert_eq!(names(&anims), vec![b"REST".to_vec(), b"D02".to_vec()]);
    assert_eq!(anims[0].tracks.len(), 1);
    assert_eq!(anims[0].tracks[0].bone_name, b"BL_R".to_vec());
    assert_eq!(anims[0].tracks[0].ms_per_frame, 100);
    assert_eq!(anims[0].duration_ms, 100);
    assert_eq!(anims[1].tracks[0].track_def_index, d1);
    assert_eq!(anims[1].tracks[0].frame_count, 4);
    assert_eq!(anims[1].duration_ms, 200);
}

#[test]
fn duration_is_longest_bone_track_and_missing_bones_are_absent() {
    let mut b = Builder::new();
    let short = b.trackdef("S", 2);
    let long = b.trackdef("L", 5);
    let r0 = b.track("ELF_TRACK", short, None);
    let r1 = b.track("ELFHE_TRACK", short, None);
    let _a0 = b.track("C01ELF_TRACK", long, Some(40));
    let _a1 = b.track("C01ELFHE_TRACK", short, Some(150));
    let _b0 = b.track("C02ELF_TRACK", short, None);
    let dags = vec![b.dag("ELF_DAG", r0, vec![1]), b.dag("ELFHE_DAG", r1, vec![])];
    let s = b.skeleton("ELF_HS_DEF", dags);
    let doc = b.done();
    let anims = S3DHierSprite::load(&doc, s).unwrap().animations(&doc).unwrap();
    // Joint 0 (rest name ELF_TRACK) matches ELF_TRACK, C01ELF_TRACK and
    // C02ELF_TRACK; joint 1 matches ELFHE_TRACK and C01ELFHE_TRACK.
    assert_eq!(names(&anims), vec![b"REST".to_vec(), b"C01".to_vec(), b"C02".to_vec()]);
    // C01: 5 * 40 = 200 against 2 * 150 = 300.
    assert_eq!(anims[1].duration_ms, 300);
    assert_eq!(anims[1].tracks.len(), 2);
    // C02 has no track for the second bone.
    assert_eq!(anims[2].tracks.len(), 1);
    assert_eq!(anims[2].tracks[0].bone_index, 0);
    assert_eq!(anims[2].duration_ms, 200);
    assert_eq!(anims[0].tracks.len(), 2);
    assert_eq!(anims[0].duration_ms, 200);
    // The same definition is shared, not copied.
    assert_eq!(anims[0].tracks[0].track_def_index, anims[0].tracks[1].track_def_index);
}

#[test]
fn rest_track_without_name_is_broken_reference() {
    let mut b = Builder::new();
    let d0 = b.trackdef("D", 1);
    let t = b.push(Fragment::Track(Track {
        name_reference: StringReference(0),
        reference: FragmentRef::Index(d0),
        sleep: None,
    }));
    let dags = vec![b.dag("X_DAG", t, vec![])];
    let s = b.skeleton("X_HS_DEF", dags);
    let doc = b.done();
    let sk = S3DHierSprite::load(&doc, s).unwrap();
    assert_eq!(
        sk.animations(&doc).unwrap_err(),
        WldError::BrokenReference { via: FragmentRef::Index(t) }
    );
    assert_eq!(sk.bones(&doc).unwrap().len(), 1);
}

#[test]
fn track_keyframes_decode_in_order() {
    let mut b = Builder::new();
    let d = b.trackdef("D", 3);
    let doc = b.done();
    if let Fragment::TrackDef(td) = &doc.fragments[d as usize - 1] {
        let k = td.keyframes();
        assert_eq!(k.len(), 3);
        assert_eq!(k[2].translation, Translation::Quantized { x: 2, y: 2, z: 3, denominator: 256 });
        assert!(td.frame(3).is_none());
    } else {
        panic!("not a track definition");
    }
}

#[test]
fn bone_track_keyframes_are_timed_by_frame_delay() {
    let mut b = Builder::new();
    let d = b.trackdef("D02ELF_TRACKDEF", 3);
    let rest_def = b.trackdef("ELF_TRACKDEF", 1);
    let rest = b.track("ELF_TRACK", rest_def, None);
    let _v = b.track("D02ELF_TRACK", d, Some(70));
    let dags = vec![b.dag("ELF_DAG", rest, vec![])];
    let s = b.skeleton("ELF_HS_DEF", dags);
    let doc = b.done();
    let anims = S3DHierSprite::load(&doc, s).unwrap().animations(&doc).unwrap();
    let d02 = anims.iter().find(|a| a.name == b"D02".to_vec()).unwrap();
    let keys = d02.tracks[0].keyframes(&doc).unwrap();
    let times: Vec<u128> = keys.iter().map(|k| k.time_ms).collect();
    assert_eq!(times, vec![0, 70, 140]);
    assert_eq!(keys[1].frame.translation, Translation::Quantized { x: 1, y: 2, z: 3, denominator: 256 });
    assert_eq!(d02.duration_ms, 210);
}
