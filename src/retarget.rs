//! Retargeting: the writes that one tracking frame calls for on an avatar.
//!
//! Every write is an absolute set, relative to the avatar's captured rest pose,
//! so applying a frame again changes nothing further. The host performs the
//! writes; writes to distinct morph targets are independent of each other.
use vstd::prelude::*;

use crate::chars::lower_of;
use crate::frame::{NameMap, TrackingFrame, Vector3};
use crate::mapping::{
    expression_morphs, expression_table_view, shape_table_view, BlendShapeMapping,
    BlendShapeMappingModel,
};

verus! {

/// The order in which a source lists the axes of a rotation.
#[derive(Debug, Clone, Copy, PartialEq, Eq, Structural)]
pub enum AxisOrder {
    /// `(x, y, z)`.
    Xyz,
    /// `(y, x, z)`: the first two components are swapped.
    Yxz,
}

/// A target that follows the head's position.
#[derive(Debug, Clone, Copy, PartialEq, Eq, Structural)]
pub enum IkTarget {
    Head,
    LeftHand,
    RightHand,
}

/// A write to the avatar's pose.
#[derive(Debug, Clone, PartialEq)]
pub enum PoseWrite<N> {
    /// Set the head's rotation, in the skeleton's axis order.
    HeadRotation(Vector3<N>),
    /// Set the target's offset from its own rest position.
    Position(IkTarget, Vector3<N>),
}

/// A write of `value` to the blend shape at `blend_shape_path` on mesh `mesh_id`.
#[derive(Debug, Clone)]
pub struct MorphWrite<W> {
    pub mesh_id: i64,
    pub blend_shape_path: String,
    pub value: W,
}

/// What a [`MorphWrite`] stands for.
pub struct MorphWriteModel<W> {
    pub mesh_id: i64,
    pub blend_shape_path: Seq<char>,
    pub value: W,
}

impl<W> View for MorphWrite<W> {
    type V = MorphWriteModel<W>;

    open spec fn view(&self) -> MorphWriteModel<W> {
        MorphWriteModel {
            mesh_id: self.mesh_id,
            blend_shape_path: self.blend_shape_path@,
            value: self.value,
        }
    }
}

/// The writes of one frame: pose writes, then morph writes, each in order.
#[derive(Debug, Clone)]
pub struct RetargetPlan<N, W> {
    pub pose: Vec<PoseWrite<N>>,
    pub morphs: Vec<MorphWrite<W>>,
}

/// The view of each morph write.
pub open spec fn morph_writes_view<W>(v: Seq<MorphWrite<W>>) -> Seq<MorphWriteModel<W>> {
    v.map_values(|m: MorphWrite<W>| m@)
}

/// `v` with its components in the skeleton's order.
pub open spec fn ordered<N>(v: Vector3<N>, order: AxisOrder) -> Vector3<N> {
    match order {
        AxisOrder::Xyz => v,
        AxisOrder::Yxz => Vector3 { x: v.y, y: v.x, z: v.z },
    }
}

/// The pose writes for a head rotation and a head position, each if present;
/// the head position moves the head and both hand targets alike.
pub open spec fn pose_plan<N>(
    rotation: Option<Vector3<N>>,
    position: Option<Vector3<N>>,
    order: AxisOrder,
) -> Seq<PoseWrite<N>> {
    (match rotation {
        Some(r) => seq![PoseWrite::HeadRotation(ordered(r, order))],
        None => Seq::empty(),
    }) + (match position {
        Some(p) => seq![
            PoseWrite::Position(IkTarget::Head, p),
            PoseWrite::Position(IkTarget::LeftHand, p),
            PoseWrite::Position(IkTarget::RightHand, p),
        ],
        None => Seq::empty(),
    })
}

/// The writes of weight `w` to each of the blend shapes `morphs` that the
/// table knows, in order.
pub open spec fn writes_for<M, W>(
    morphs: Seq<Seq<char>>,
    table: Map<Seq<char>, BlendShapeMappingModel<M>>,
    w: W,
) -> Seq<MorphWriteModel<W>>
    decreases morphs.len(),
{
    if morphs.len() == 0 {
        Seq::empty()
    } else {
        writes_for(morphs.drop_last(), table, w) + if table.contains_key(morphs.last()) {
            seq![
                MorphWriteModel {
                    mesh_id: table[morphs.last()].mesh_id,
                    blend_shape_path: table[morphs.last()].blend_shape_path,
                    value: w,
                },
            ]
        } else {
            Seq::empty()
        }
    }
}

/// The morph writes for the weights `shapes`: each weight goes to every blend
/// shape that the expression of its lowercase name drives.
pub open spec fn morph_plan<M, W>(
    shapes: Seq<(Seq<char>, W)>,
    exprs: Map<Seq<char>, Seq<Seq<char>>>,
    table: Map<Seq<char>, BlendShapeMappingModel<M>>,
) -> Seq<MorphWriteModel<W>>
    decreases shapes.len(),
{
    if shapes.len() == 0 {
        Seq::empty()
    } else {
        morph_plan(shapes.drop_last(), exprs, table) + if exprs.contains_key(
            lower_of(shapes.last().0),
        ) {
            writes_for(exprs[lower_of(shapes.last().0)], table, shapes.last().1)
        } else {
            Seq::empty()
        }
    }
}

/// A copy of `v`.
fn copy_vector<N: Copy>(v: &Vector3<N>) -> (r: Vector3<N>)
    ensures
        r == *v,
{
    Vector3 { x: v.x, y: v.y, z: v.z }
}

/// Appends the writes of weight `w` to each of `morphs` that `shapes` knows.
fn push_writes<M, W: Copy>(
    out: &mut Vec<MorphWrite<W>>,
    morphs: &Vec<String>,
    shapes: &NameMap<BlendShapeMapping<M>>,
    w: W,
)
    requires
        shapes.wf(),
    ensures
        morph_writes_view(final(out)@) == morph_writes_view(old(out)@) + writes_for(
            morphs@.map_values(|s: String| s@),
            shape_table_view(shapes.map()),
            w,
        ),
{
    let ghost ms = morphs@.map_values(|s: String| s@);
    let ghost table = shape_table_view(shapes.map());
    let ghost start = morph_writes_view(out@);
    let mut i: usize = 0;
    while i < morphs.len()
        invariant
            i <= morphs@.len(),
            ms == morphs@.map_values(|s: String| s@),
            table == shape_table_view(shapes.map()),
            shapes.wf(),
            morph_writes_view(out@) == start + writes_for(ms.subrange(0, i as int), table, w),
        decreases morphs@.len() - i,
    {
        let ghost before = morph_writes_view(out@);
        let ghost sub = ms.subrange(0, i + 1);
        assert(sub.drop_last() == ms.subrange(0, i as int));
        assert(sub.last() == morphs[i as int]@);
        match shapes.get(morphs[i].as_str()) {
            Some(b) => {
                let write = MorphWrite {
                    mesh_id: b.mesh_id,
                    blend_shape_path: b.blend_shape_path.clone(),
                    value: w,
                };
                out.push(write);
                assert(morph_writes_view(out@) =~= before.push(write@));
            },
            None => {},
        }
        i = i + 1;
    }
    assert(ms.subrange(0, i as int) == ms);
}

/// The writes that `frame` calls for, given the avatar's expression and
/// blend-shape tables and the axis order of the frame's source.
pub fn plan_frame<N: Copy, W: Copy, M>(
    frame: &TrackingFrame<N, W>,
    order: AxisOrder,
    expressions: &NameMap<Vec<String>>,
    shapes: &NameMap<BlendShapeMapping<M>>,
) -> (r: RetargetPlan<N, W>)
    requires
        frame.blend_shapes.wf(),
        expressions.wf(),
        shapes.wf(),
    ensures
        r.pose@ == pose_plan(frame.head_rotation, frame.head_position, order),
        morph_writes_view(r.morphs@) == morph_plan(
            frame.blend_shapes.pairs(),
            expression_table_view(expressions.map()),
            shape_table_view(shapes.map()),
        ),
{
    let mut pose: Vec<PoseWrite<N>> = Vec::new();
    match &frame.head_rotation {
        Some(v) => {
            let c = copy_vector(v);
            let o = match order {
                AxisOrder::Xyz => c,
                AxisOrder::Yxz => Vector3 { x: c.y, y: c.x, z: c.z },
            };
            pose.push(PoseWrite::HeadRotation(o));
        },
        None => {},
    }
    match &frame.head_position {
        Some(v) => {
            pose.push(PoseWrite::Position(IkTarget::Head, copy_vector(v)));
            pose.push(PoseWrite::Position(IkTarget::LeftHand, copy_vector(v)));
            pose.push(PoseWrite::Position(IkTarget::RightHand, copy_vector(v)));
        },
        None => {},
    }
    assert(pose@ =~= pose_plan(frame.head_rotation, frame.head_position, order));
    let ghost ps = frame.blend_shapes.pairs();
    let ghost exprs = expression_table_view(expressions.map());
    let ghost table = shape_table_view(shapes.map());
    let mut morphs: Vec<MorphWrite<W>> = Vec::new();
    assert(morph_writes_view(morphs@) =~= Seq::<MorphWriteModel<W>>::empty());
    let mut i: usize = 0;
    while i < frame.blend_shapes.len()
        invariant
            i <= ps.len(),
            ps == frame.blend_shapes.pairs(),
            exprs == expression_table_view(expressions.map()),
            table == shape_table_view(shapes.map()),
            expressions.wf(),
            shapes.wf(),
            morph_writes_view(morphs@) == morph_plan(ps.subrange(0, i as int), exprs, table),
        decreases ps.len() - i,
    {
        let (name, w) = frame.blend_shapes.entry(i);
        let ghost sub = ps.subrange(0, i + 1);
        assert(sub.drop_last() == ps.subrange(0, i as int));
        assert(sub.last() == ps[i as int]);
        match expression_morphs(expressions, name.as_str()) {
            Some(ms) => {
                push_writes(&mut morphs, ms, shapes, *w);
            },
            None => {
                assert(morph_writes_view(morphs@) =~= morph_writes_view(morphs@) + Seq::<
                    MorphWriteModel<W>,
                >::empty());
            },
        }
        i = i + 1;
    }
    assert(ps.subrange(0, i as int) == ps);
    RetargetPlan { pose, morphs }
}

/// A pose value that a [`PoseWrite`] sets.
#[derive(Debug, Clone, Copy, PartialEq, Eq, Structural)]
pub enum PoseSlot {
    HeadRotation,
    Position(IkTarget),
}

/// What the host holds that retargeting writes: the pose values, and
/// the weight of each blend shape by mesh id and property path.
pub struct AvatarState<N, W> {
    pub pose: Map<PoseSlot, Vector3<N>>,
    pub morphs: Map<(i64, Seq<char>), W>,
}

/// `s` after setting each key of `ws` to its value, in order.
pub open spec fn apply_sets<K, V>(s: Map<K, V>, ws: Seq<(K, V)>) -> Map<K, V>
    decreases ws.len(),
{
    if ws.len() == 0 {
        s
    } else {
        apply_sets(s, ws.drop_last()).insert(ws.last().0, ws.last().1)
    }
}

/// The pose writes as slot and value.
pub open spec fn pose_sets<N>(ws: Seq<PoseWrite<N>>) -> Seq<(PoseSlot, Vector3<N>)> {
    ws.map_values(
        |w: PoseWrite<N>|
            match w {
                PoseWrite::HeadRotation(v) => (PoseSlot::HeadRotation, v),
                PoseWrite::Position(t, v) => (PoseSlot::Position(t), v),
            },
    )
}

/// The morph writes as target and weight.
pub open spec fn morph_sets<W>(ws: Seq<MorphWriteModel<W>>) -> Seq<((i64, Seq<char>), W)> {
    ws.map_values(|w: MorphWriteModel<W>| ((w.mesh_id, w.blend_shape_path), w.value))
}

/// `s` after the pose writes `pose` and the morph writes `morphs`.
pub open spec fn apply_plan<N, W>(
    s: AvatarState<N, W>,
    pose: Seq<PoseWrite<N>>,
    morphs: Seq<MorphWriteModel<W>>,
) -> AvatarState<N, W> {
    AvatarState {
        pose: apply_sets(s.pose, pose_sets(pose)),
        morphs: apply_sets(s.morphs, morph_sets(morphs)),
    }
}

/// `s` after everything that `frame` calls for.
pub open spec fn apply_frame<N, W, M>(
    s: AvatarState<N, W>,
    frame: TrackingFrame<N, W>,
    order: AxisOrder,
    exprs: Map<Seq<char>, Seq<Seq<char>>>,
    table: Map<Seq<char>, BlendShapeMappingModel<M>>,
) -> AvatarState<N, W> {
    apply_plan(
        s,
        pose_plan(frame.head_rotation, frame.head_position, order),
        morph_plan(frame.blend_shapes.pairs(), exprs, table),
    )
}

/// Setting keys in order gives the old map overridden by what was set.
proof fn lemma_apply_sets_union<K, V>(s: Map<K, V>, ws: Seq<(K, V)>)
    ensures
        apply_sets(s, ws) == s.union_prefer_right(apply_sets(Map::empty(), ws)),
    decreases ws.len(),
{
    if ws.len() == 0 {
        assert(s.union_prefer_right(Map::<K, V>::empty()) =~= s);
    } else {
        lemma_apply_sets_union(s, ws.drop_last());
        assert(apply_sets(s, ws) =~= s.union_prefer_right(apply_sets(Map::empty(), ws)));
    }
}

/// Setting the same keys to the same values a second time changes nothing.
pub proof fn lemma_apply_sets_twice<K, V>(s: Map<K, V>, ws: Seq<(K, V)>)
    ensures
        apply_sets(apply_sets(s, ws), ws) == apply_sets(s, ws),
{
    lemma_apply_sets_union(s, ws);
    lemma_apply_sets_union(apply_sets(s, ws), ws);
    let w = apply_sets(Map::<K, V>::empty(), ws);
    assert(s.union_prefer_right(w).union_prefer_right(w) =~= s.union_prefer_right(w));
}

/// Applying the same frame twice leaves the avatar as applying it once does:
/// no drift in the pose or in any blend-shape weight.
pub proof fn lemma_frame_idempotent<N, W, M>(
    s: AvatarState<N, W>,
    frame: TrackingFrame<N, W>,
    order: AxisOrder,
    exprs: Map<Seq<char>, Seq<Seq<char>>>,
    table: Map<Seq<char>, BlendShapeMappingModel<M>>,
)
    ensures
        apply_frame(apply_frame(s, frame, order, exprs, table), frame, order, exprs, table)
            == apply_frame(s, frame, order, exprs, table),
{
    let p = pose_sets(pose_plan(frame.head_rotation, frame.head_position, order));
    let m = morph_sets(morph_plan(frame.blend_shapes.pairs(), exprs, table));
    lemma_apply_sets_twice(s.pose, p);
    lemma_apply_sets_twice(s.morphs, m);
}

/// A frame with neither head rotation nor head position leaves the pose as it was.
pub proof fn lemma_shapes_only_keep_pose<N, W, M>(
    s: AvatarState<N, W>,
    frame: TrackingFrame<N, W>,
    order: AxisOrder,
    exprs: Map<Seq<char>, Seq<Seq<char>>>,
    table: Map<Seq<char>, BlendShapeMappingModel<M>>,
)
    requires
        frame.head_rotation is None,
        frame.head_position is None,
    ensures
        apply_frame(s, frame, order, exprs, table).pose == s.pose,
{
    let ws = pose_plan(frame.head_rotation, frame.head_position, order);
    assert(ws =~= Seq::<PoseWrite<N>>::empty());
    assert(pose_sets(ws) =~= Seq::<(PoseSlot, Vector3<N>)>::empty());
}

/// Blend-shape names count only by their lowercase form: two lists of weights
/// whose names pair up with equal lowercase forms, and whose weights are
/// equal, make the same morph writes.
pub proof fn lemma_morph_plan_ignores_case<M, W>(
    s1: Seq<(Seq<char>, W)>,
    s2: Seq<(Seq<char>, W)>,
    exprs: Map<Seq<char>, Seq<Seq<char>>>,
    table: Map<Seq<char>, BlendShapeMappingModel<M>>,
)
    requires
        s1.len() == s2.len(),
        forall|i: int|
            0 <= i < s1.len() ==> lower_of(#[trigger] s1[i].0) == lower_of(s2[i].0) && s1[i].1
                == s2[i].1,
    ensures
        morph_plan(s1, exprs, table) == morph_plan(s2, exprs, table),
    decreases s1.len(),
{
    if s1.len() > 0 {
        let d1 = s1.drop_last();
        let d2 = s2.drop_last();
        assert forall|i: int| 0 <= i < d1.len() implies lower_of(#[trigger] d1[i].0) == lower_of(
            d2[i].0,
        ) && d1[i].1 == d2[i].1 by {
            assert(d1[i] == s1[i] && d2[i] == s2[i]);
        }
        lemma_morph_plan_ignores_case(d1, d2, exprs, table);
        assert(lower_of(s1[s1.len() - 1].0) == lower_of(s2[s2.len() - 1].0));
    }
}

/// The bones that an A-pose turns, in the order they are turned.
#[derive(Debug, Clone, Copy, PartialEq, Eq, Structural)]
pub enum APoseBone {
    LeftShoulder,
    RightShoulder,
    LeftUpperArm,
    RightUpperArm,
}

/// The bone at position `i` of the A-pose order.
pub open spec fn a_pose_bone(i: int) -> APoseBone {
    if i == 0 {
        APoseBone::LeftShoulder
    } else if i == 1 {
        APoseBone::RightShoulder
    } else if i == 2 {
        APoseBone::LeftUpperArm
    } else {
        APoseBone::RightUpperArm
    }
}

/// A bone's name in the skeleton.
pub open spec fn skeleton_name_spec(b: APoseBone) -> Seq<char> {
    match b {
        APoseBone::LeftShoulder => "LeftShoulder"@,
        APoseBone::RightShoulder => "RightShoulder"@,
        APoseBone::LeftUpperArm => "LeftUpperArm"@,
        APoseBone::RightUpperArm => "RightUpperArm"@,
    }
}

/// A bone's name in a VRM humanoid bone mapping.
pub open spec fn humanoid_name_spec(b: APoseBone) -> Seq<char> {
    match b {
        APoseBone::LeftShoulder => "leftShoulder"@,
        APoseBone::RightShoulder => "rightShoulder"@,
        APoseBone::LeftUpperArm => "leftUpperArm"@,
        APoseBone::RightUpperArm => "rightUpperArm"@,
    }
}

impl APoseBone {
    /// The bone's name in the skeleton.
    pub fn skeleton_name(&self) -> (r: &'static str)
        ensures
            r@ == skeleton_name_spec(*self),
    {
        match self {
            APoseBone::LeftShoulder => "LeftShoulder",
            APoseBone::RightShoulder => "RightShoulder",
            APoseBone::LeftUpperArm => "LeftUpperArm",
            APoseBone::RightUpperArm => "RightUpperArm",
        }
    }

    /// The bone's name in a VRM humanoid bone mapping.
    pub fn humanoid_name(&self) -> (r: &'static str)
        ensures
            r@ == humanoid_name_spec(*self),
    {
        match self {
            APoseBone::LeftShoulder => "leftShoulder",
            APoseBone::RightShoulder => "rightShoulder",
            APoseBone::LeftUpperArm => "leftUpperArm",
            APoseBone::RightUpperArm => "rightUpperArm",
        }
    }
}

/// Why an A-pose was not applied.
#[derive(Debug, Clone, Copy, PartialEq, Eq, Structural)]
pub enum APoseError {
    /// The model is not a VRM model, or has no skeleton.
    Unconfigured,
    /// The VRM metadata or its humanoid bone mapping is missing or unreadable.
    InvalidData,
}

/// What the host found when asked to A-pose a model.
#[derive(Debug, Clone, PartialEq)]
pub struct APoseScene {
    pub is_vrm: bool,
    pub has_vrm_data: bool,
    /// For each A-pose bone in order, whether the humanoid bone mapping lists
    /// it; `None` when there is no readable mapping.
    pub listed: Option<Vec<bool>>,
    pub has_skeleton: bool,
    /// For each A-pose bone in order, its index in the skeleton, negative when
    /// the skeleton has no such bone.
    pub bone_ids: Vec<i32>,
}

/// The bones from position `i` on that are listed and found, with their indices.
pub open spec fn a_pose_from(listed: Seq<bool>, ids: Seq<i32>, i: int) -> Seq<(i32, APoseBone)>
    decreases 4 - i,
{
    if i < 0 || i >= 4 {
        Seq::empty()
    } else if listed[i] && ids[i] >= 0 {
        seq![(ids[i], a_pose_bone(i))] + a_pose_from(listed, ids, i + 1)
    } else {
        a_pose_from(listed, ids, i + 1)
    }
}

/// What A-posing a model in `scene` does: refuse it, or turn these bones.
pub open spec fn a_pose_spec(scene: APoseScene) -> Result<Seq<(i32, APoseBone)>, APoseError> {
    if !scene.is_vrm || (scene.has_vrm_data && scene.listed is Some && !scene.has_skeleton) {
        Err(APoseError::Unconfigured)
    } else if !scene.has_vrm_data || scene.listed is None {
        Err(APoseError::InvalidData)
    } else {
        Ok(a_pose_from(scene.listed->0@, scene.bone_ids@, 0))
    }
}

/// The bones to turn into an A-pose, or why the model cannot be posed, as
/// [`a_pose_spec`] says.
pub fn a_pose(scene: &APoseScene) -> (r: Result<Vec<(i32, APoseBone)>, APoseError>)
    requires
        scene.bone_ids@.len() == 4,
        scene.listed matches Some(l) ==> l@.len() == 4,
    ensures
        r matches Ok(v) ==> a_pose_spec(*scene) == Ok::<Seq<(i32, APoseBone)>, APoseError>(v@),
        r matches Err(e) ==> a_pose_spec(*scene) == Err::<Seq<(i32, APoseBone)>, APoseError>(e),
{
    if !scene.is_vrm {
        return Err(APoseError::Unconfigured);
    }
    if !scene.has_vrm_data {
        return Err(APoseError::InvalidData);
    }
    let listed = match &scene.listed {
        Some(l) => l,
        None => {
            return Err(APoseError::InvalidData);
        },
    };
    if !scene.has_skeleton {
        return Err(APoseError::Unconfigured);
    }
    let ghost ls = listed@;
    let ghost ids = scene.bone_ids@;
    let mut out: Vec<(i32, APoseBone)> = Vec::new();
    let mut i: usize = 0;
    while i < 4
        invariant
            i <= 4,
            ls == listed@,
            ids == scene.bone_ids@,
            ls.len() == 4,
            ids.len() == 4,
            out@ + a_pose_from(ls, ids, i as int) == a_pose_from(ls, ids, 0),
        decreases 4 - i,
    {
        let bone = if i == 0 {
            APoseBone::LeftShoulder
        } else if i == 1 {
            APoseBone::RightShoulder
        } else if i == 2 {
            APoseBone::LeftUpperArm
        } else {
            APoseBone::RightUpperArm
        };
        let ghost before = out@;
        if listed[i] && scene.bone_ids[i] >= 0 {
            out.push((scene.bone_ids[i], bone));
            assert(before + a_pose_from(ls, ids, i as int) == out@ + a_pose_from(ls, ids, i + 1));
        }
        i = i + 1;
    }
    assert(out@ + a_pose_from(ls, ids, 4) == out@);
    Ok(out)
}

} // verus!
