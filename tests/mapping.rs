use libvpuppr::frame::NameMap;
use libvpuppr::mapping::{
    expression_morphs, populate_and_modify_expression_mappings, populate_blend_shape_mappings,
    AnimationClip, AnimationTrack, BlendShapeMapping, SkeletonChild, TrackKind,
};

fn track(path: &str, kind: TrackKind, key_count: i32) -> AnimationTrack {
    AnimationTrack { path: path.to_string(), kind, key_count }
}

fn clip(name: &str, tracks: Vec<AnimationTrack>) -> Option<AnimationClip> {
    Some(AnimationClip { name: name.to_string(), tracks })
}

#[test]
fn blend_shape_mappings_from_children() {
    let children = vec![
        SkeletonChild::Other,
        SkeletonChild::Mesh {
            instance_id: 7,
            blend_shapes: vec![("Smile".to_string(), 0.0f32), ("Blink".to_string(), 0.5)],
        },
        SkeletonChild::Unreadable,
        SkeletonChild::Mesh { instance_id: 0, blend_shapes: vec![("Dead".to_string(), 1.0)] },
        SkeletonChild::Mesh { instance_id: 9, blend_shapes: vec![("Smile".to_string(), 1.0)] },
    ];
    let mut m: NameMap<BlendShapeMapping<f32>> = NameMap::new();
    populate_blend_shape_mappings(&mut m, &children);
    assert_eq!(m.len(), 2);
    let smile = m.get("Smile").unwrap();
    assert_eq!(smile.mesh_id, 9);
    assert_eq!(smile.blend_shape_path, "blend_shapes/Smile");
    assert_eq!(smile.value, 1.0);
    let blink = m.get("Blink").unwrap();
    assert_eq!(blink.mesh_id, 7);
    assert_eq!(blink.blend_shape_path, "blend_shapes/Blink");
    assert!(m.get("Dead").is_none());
}

#[test]
fn blend_shape_mapping_new() {
    let b = BlendShapeMapping::new(3, "blend_shapes/a".to_string(), 0.25f32);
    assert_eq!(b.mesh_id, 3);
    assert_eq!(b.blend_shape_path, "blend_shapes/a");
    assert_eq!(b.value, 0.25);
}

#[test]
fn expression_mappings_from_clips() {
    let clips = vec![
        clip(
            "Blink_L",
            vec![
                track("Body:eyeBlinkLeft", TrackKind::BlendShape, 1),
                track("Body:unkeyed", TrackKind::BlendShape, 0),
                track("Skeleton:Head", TrackKind::Rotation3d, 3),
                track("nocolon", TrackKind::BlendShape, 1),
                track("Face:a:b", TrackKind::BlendShape, 2),
                track("Body:other", TrackKind::Other, 1),
            ],
        ),
        clip("RESET", vec![]),
        None,
        clip("After", vec![track("Body:x", TrackKind::BlendShape, 1)]),
    ];
    let mut m: NameMap<Vec<String>> = NameMap::new();
    populate_and_modify_expression_mappings(&mut m, &clips);
    assert_eq!(m.len(), 2);
    assert_eq!(m.get("blink_l").unwrap(), &vec!["eyeBlinkLeft".to_string(), "a:b".to_string()]);
    assert_eq!(m.get("reset").unwrap(), &Vec::<String>::new());
    assert!(m.get("after").is_none());
}

#[test]
fn later_clip_of_same_name_wins() {
    let clips = vec![
        clip("Joy", vec![track("Body:a", TrackKind::BlendShape, 1)]),
        clip("JOY", vec![track("Body:b", TrackKind::BlendShape, 1)]),
    ];
    let mut m: NameMap<Vec<String>> = NameMap::new();
    populate_and_modify_expression_mappings(&mut m, &clips);
    assert_eq!(m.len(), 1);
    assert_eq!(m.get("joy").unwrap(), &vec!["b".to_string()]);
}

#[test]
fn expression_lookup_ignores_case() {
    let clips = vec![clip("Blink_L", vec![track("Body:eyeBlinkLeft", TrackKind::BlendShape, 1)])];
    let mut m: NameMap<Vec<String>> = NameMap::new();
    populate_and_modify_expression_mappings(&mut m, &clips);
    let a = expression_morphs(&m, "blink_l").unwrap();
    let b = expression_morphs(&m, "BLINK_L").unwrap();
    assert_eq!(a, b);
    assert_eq!(a, &vec!["eyeBlinkLeft".to_string()]);
    assert!(expression_morphs(&m, "blink_r").is_none());
}

#[test]
fn name_map_insert_replaces() {
    let mut m: NameMap<i32> = NameMap::new();
    m.insert("a".to_string(), 1);
    m.insert("b".to_string(), 2);
    m.insert("a".to_string(), 3);
    assert_eq!(m.len(), 2);
    assert_eq!(m.get("a"), Some(&3));
    assert_eq!(m.get("b"), Some(&2));
    assert_eq!(m.get("A"), None);
    assert_eq!(m.entry(0), (&"a".to_string(), &3));
}

#[test]
fn expression_found_among_several_clips() {
    let clips = vec![
        clip("Joy", vec![track("Body:joy", TrackKind::BlendShape, 1)]),
        clip("Blink_L", vec![track("Body:eyeBlinkLeft", TrackKind::BlendShape, 1)]),
        clip("Angry", vec![track("Body:angry", TrackKind::BlendShape, 1)]),
    ];
    let mut m: NameMap<Vec<String>> = NameMap::new();
    populate_and_modify_expression_mappings(&mut m, &clips);
    assert_eq!(expression_morphs(&m, "blink_l").unwrap(), &vec!["eyeBlinkLeft".to_string()]);
    assert_eq!(expression_morphs(&m, "Blink_L").unwrap(), &vec!["eyeBlinkLeft".to_string()]);
    assert!(m.get("Blink_L").is_none());
}
