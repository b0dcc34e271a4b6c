use std::collections::HashMap;

use libvpuppr::frame::{NameMap, TrackingFrame, Vector3};
use libvpuppr::mapping::BlendShapeMapping;
use libvpuppr::retarget::{plan_frame, AxisOrder, IkTarget, PoseWrite, RetargetPlan};

fn tables() -> (NameMap<Vec<String>>, NameMap<BlendShapeMapping<f32>>) {
    let mut exprs: NameMap<Vec<String>> = NameMap::new();
    exprs.insert("smile".to_string(), vec!["mouthSmile".to_string(), "missing".to_string()]);
    exprs.insert("blink".to_string(), vec!["eyeBlinkL".to_string(), "eyeBlinkR".to_string()]);
    let mut shapes: NameMap<BlendShapeMapping<f32>> = NameMap::new();
    shapes.insert(
        "mouthSmile".to_string(),
        BlendShapeMapping::new(1, "blend_shapes/mouthSmile".to_string(), 0.0),
    );
    shapes.insert(
        "eyeBlinkL".to_string(),
        BlendShapeMapping::new(2, "blend_shapes/eyeBlinkL".to_string(), 0.0),
    );
    shapes.insert(
        "eyeBlinkR".to_string(),
        BlendShapeMapping::new(2, "blend_shapes/eyeBlinkR".to_string(), 0.0),
    );
    (exprs, shapes)
}

fn v(x: f32, y: f32, z: f32) -> Vector3<f32> {
    Vector3 { x, y, z }
}

type State = (HashMap<String, Vector3<f32>>, HashMap<(i64, String), f32>);

fn apply(state: &mut State, plan: &RetargetPlan<f32, f32>) {
    for p in &plan.pose {
        match p {
            PoseWrite::HeadRotation(r) => {
                state.0.insert("rotation".to_string(), r.clone());
            }
            PoseWrite::Position(t, r) => {
                state.0.insert(format!("{t:?}"), r.clone());
            }
        }
    }
    for m in &plan.morphs {
        state.1.insert((m.mesh_id, m.blend_shape_path.clone()), m.value);
    }
}

#[test]
fn rotation_axis_order() {
    let (exprs, shapes) = tables();
    let mut frame: TrackingFrame<f32, f32> = TrackingFrame::empty();
    frame.head_rotation = Some(v(1.0, 2.0, 3.0));
    let xyz = plan_frame(&frame, AxisOrder::Xyz, &exprs, &shapes);
    assert_eq!(xyz.pose, vec![PoseWrite::HeadRotation(v(1.0, 2.0, 3.0))]);
    let yxz = plan_frame(&frame, AxisOrder::Yxz, &exprs, &shapes);
    assert_eq!(yxz.pose, vec![PoseWrite::HeadRotation(v(2.0, 1.0, 3.0))]);
    assert!(yxz.morphs.is_empty());
}

#[test]
fn rotation_then_position() {
    let (exprs, shapes) = tables();
    let mut frame: TrackingFrame<f32, f32> = TrackingFrame::empty();
    frame.head_rotation = Some(v(1.0, 0.0, 0.0));
    frame.head_position = Some(v(0.5, 0.0, 0.0));
    let p = plan_frame(&frame, AxisOrder::Xyz, &exprs, &shapes);
    assert_eq!(
        p.pose,
        vec![
            PoseWrite::HeadRotation(v(1.0, 0.0, 0.0)),
            PoseWrite::Position(IkTarget::Head, v(0.5, 0.0, 0.0)),
            PoseWrite::Position(IkTarget::LeftHand, v(0.5, 0.0, 0.0)),
            PoseWrite::Position(IkTarget::RightHand, v(0.5, 0.0, 0.0)),
        ]
    );
}

#[test]
fn blend_shapes_fan_out_to_targets() {
    let (exprs, shapes) = tables();
    let mut frame: TrackingFrame<f32, f32> = TrackingFrame::empty();
    frame.blend_shapes.insert("Blink".to_string(), 0.75);
    frame.blend_shapes.insert("Smile".to_string(), 0.5);
    frame.blend_shapes.insert("unknown".to_string(), 1.0);
    let p = plan_frame(&frame, AxisOrder::Xyz, &exprs, &shapes);
    let got: Vec<(i64, String, f32)> =
        p.morphs.iter().map(|m| (m.mesh_id, m.blend_shape_path.clone(), m.value)).collect();
    assert_eq!(
        got,
        vec![
            (2, "blend_shapes/eyeBlinkL".to_string(), 0.75),
            (2, "blend_shapes/eyeBlinkR".to_string(), 0.75),
            (1, "blend_shapes/mouthSmile".to_string(), 0.5),
        ]
    );
}

#[test]
fn shapes_only_frame_leaves_pose() {
    let (exprs, shapes) = tables();
    let mut frame: TrackingFrame<f32, f32> = TrackingFrame::empty();
    frame.blend_shapes.insert("smile".to_string(), 0.5);
    let p = plan_frame(&frame, AxisOrder::Yxz, &exprs, &shapes);
    assert!(p.pose.is_empty());
    let mut state: State = (HashMap::new(), HashMap::new());
    state.0.insert("rotation".to_string(), v(0.1, 0.2, 0.3));
    let before = state.0.clone();
    apply(&mut state, &p);
    assert_eq!(state.0, before);
    assert_eq!(state.1.get(&(1, "blend_shapes/mouthSmile".to_string())), Some(&0.5));
}

#[test]
fn applying_a_frame_twice_does_not_drift() {
    let (exprs, shapes) = tables();
    let mut frame: TrackingFrame<f32, f32> = TrackingFrame::empty();
    frame.head_rotation = Some(v(0.3, 0.2, 0.1));
    frame.head_position = Some(v(0.0, 1.0, 0.0));
    frame.blend_shapes.insert("blink".to_string(), 0.25);
    let p = plan_frame(&frame, AxisOrder::Yxz, &exprs, &shapes);
    let mut state: State = (HashMap::new(), HashMap::new());
    apply(&mut state, &p);
    let once = state.clone();
    let again = plan_frame(&frame, AxisOrder::Yxz, &exprs, &shapes);
    apply(&mut state, &again);
    assert_eq!(state, once);
}

use libvpuppr::retarget::{a_pose, APoseBone, APoseError, APoseScene};

fn scene(listed: Option<Vec<bool>>, bone_ids: Vec<i32>) -> APoseScene {
    APoseScene { is_vrm: true, has_vrm_data: true, listed, has_skeleton: true, bone_ids }
}

#[test]
fn a_pose_turns_listed_and_found_bones() {
    let s = scene(Some(vec![true, false, true, true]), vec![4, 5, -1, 7]);
    assert_eq!(
        a_pose(&s).unwrap(),
        vec![(4, APoseBone::LeftShoulder), (7, APoseBone::RightUpperArm)]
    );
    assert_eq!(APoseBone::LeftUpperArm.skeleton_name(), "LeftUpperArm");
    assert_eq!(APoseBone::RightShoulder.humanoid_name(), "rightShoulder");
}

#[test]
fn a_pose_refusals() {
    let mut s = scene(Some(vec![true; 4]), vec![0, 1, 2, 3]);
    s.is_vrm = false;
    assert_eq!(a_pose(&s), Err(APoseError::Unconfigured));
    let s = scene(None, vec![0, 1, 2, 3]);
    assert_eq!(a_pose(&s), Err(APoseError::InvalidData));
    let mut s = scene(Some(vec![true; 4]), vec![0, 1, 2, 3]);
    s.has_vrm_data = false;
    assert_eq!(a_pose(&s), Err(APoseError::InvalidData));
    let mut s = scene(Some(vec![true; 4]), vec![0, 1, 2, 3]);
    s.has_skeleton = false;
    assert_eq!(a_pose(&s), Err(APoseError::Unconfigured));
}

#[test]
fn blend_shape_names_match_in_any_case() {
    let (exprs, shapes) = tables();
    let mut upper: TrackingFrame<f32, f32> = TrackingFrame::empty();
    upper.blend_shapes.insert("BLINK".to_string(), 0.5);
    let mut lower: TrackingFrame<f32, f32> = TrackingFrame::empty();
    lower.blend_shapes.insert("blink".to_string(), 0.5);
    let a = plan_frame(&upper, AxisOrder::Xyz, &exprs, &shapes);
    let b = plan_frame(&lower, AxisOrder::Xyz, &exprs, &shapes);
    let key = |p: &RetargetPlan<f32, f32>| -> Vec<(i64, String, f32)> {
        p.morphs.iter().map(|m| (m.mesh_id, m.blend_shape_path.clone(), m.value)).collect()
    };
    assert_eq!(key(&a), key(&b));
    assert_eq!(a.morphs.len(), 2);
}
